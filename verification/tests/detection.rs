//! Tampering scenarios: each corruption route of the protocol must be
//! caught by the stage that guards it.

use edabits::field::f2_to_fe;
use edabits::{
    check_cut_edabits, conv, fdabit, random_dabits, random_edabits, Error, Fp, MacFpProver,
    MacFpVerifier,
};
use rand::rngs::StdRng;
use rand::SeedableRng;

#[test]
fn corrupted_input_edabit_is_rejected() {
    // flip one bit of one input edabit after commitment: the prover's copy
    // no longer matches the committed record and the conversion must reject
    let mut rng = StdRng::seed_from_u64(201);
    let (mut edabits_p, edabits_v) = random_edabits(&mut rng, 38, 5);
    edabits_p[2].bits[4].bit = !edabits_p[2].bits[4].bit;
    let res = conv(&mut rng, 5, 5, &edabits_p, &edabits_v, true);
    assert!(res.is_err());
}

#[test]
fn corrupted_cut_edabit_aborts_open() {
    // tamper with a random edabit so its bits no longer fold to its value:
    // the cut-and-choose opening must abort
    let mut rng = StdRng::seed_from_u64(202);
    let (mut r_p, mut r_v) = random_edabits(&mut rng, 38, 5);
    let old = r_p[1].value.value.as_u64();
    let forged = Fp::from_u64(old.wrapping_add(1) % edabits::P);
    r_p[1].value = MacFpProver { value: forged };
    r_v[1].value = MacFpVerifier { value: forged };
    let res = check_cut_edabits(&r_p, &r_v, 0, 5);
    assert_eq!(res, Err(Error::WrongOpenRandomEdabit));
}

#[test]
fn inconsistent_dabit_fails_fdabit() {
    // commit a dabit whose field value disagrees with its bit: the
    // cross-field comparison must fail (except with probability 2^-38)
    let mut rng = StdRng::seed_from_u64(203);
    let (mut dabits_p, mut dabits_v) = random_dabits(&mut rng, 100);
    let flipped = f2_to_fe(!dabits_p[3].bit.bit);
    dabits_p[3].value = MacFpProver { value: flipped };
    dabits_v[3].value = MacFpVerifier { value: flipped };
    let res = fdabit(&mut rng, &dabits_p, &dabits_v);
    assert_eq!(res, Err(Error::FailFdabit));
}

#[test]
fn torn_dabit_copy_fails_mac_check() {
    // the prover's copy of a dabit value diverges from the committed record:
    // an opened batch must catch the mismatch
    let mut rng = StdRng::seed_from_u64(204);
    let (mut dabits_p, dabits_v) = random_dabits(&mut rng, 20);
    dabits_p[7].bit.bit = !dabits_p[7].bit.bit;
    let res = fdabit(&mut rng, &dabits_p, &dabits_v);
    assert!(res.is_err());
}

#[test]
fn conv_rejects_value_off_by_one() {
    // an edabit whose committed value is one more than the fold of its bits
    let mut rng = StdRng::seed_from_u64(205);
    let (mut edabits_p, mut edabits_v) = random_edabits(&mut rng, 38, 3);
    let old = edabits_p[0].value.value;
    let forged = old.add(Fp::one());
    edabits_p[0].value = MacFpProver { value: forged };
    edabits_v[0].value = MacFpVerifier { value: forged };
    let res = conv(&mut rng, 5, 5, &edabits_p, &edabits_v, true);
    assert!(res.is_err());
}
