//! End-to-end exercises of the protocol: the carry conversion, the batched
//! adder, the dabit consistency proof, and the conversion sweep.

use edabits::field::f2_to_fe;
use edabits::mac::{input_bit, open_bits, open_fp, random_bit_mac};
use edabits::{
    bit_add_carry, conv, convert_bit_2_field, fdabit, random_dabits, random_edabits,
    EdabitsProver, EdabitsVerifier, Fp, MacFpProver, MacFpVerifier,
};
use rand::rngs::StdRng;
use rand::SeedableRng;

const DEFAULT_NUM_BUCKET: usize = 5;
const DEFAULT_NUM_CUT: usize = 5;
const NB_BITS: usize = 38;

#[test]
fn test_convert_bit_2_field_f61p() {
    let count = 100;
    let mut rng = StdRng::seed_from_u64(101);
    for _ in 0..count {
        // a fresh random dabit, built exactly as the generator builds one
        let (rb_p, rb_v) = random_bit_mac(&mut rng);
        let rm = f2_to_fe(rb_p.bit);
        let (rm_p, rm_v) = edabits::mac::input_fp(rm);
        let dabit_p = edabits::DabitProver { bit: rb_p, value: rm_p };
        let dabit_v = edabits::DabitVerifier { bit: rb_v, value: rm_v };

        let (x_p, x_v) = random_bit_mac(&mut rng);

        let (x_m_p, x_m_v) =
            convert_bit_2_field(&vec![dabit_p], &vec![dabit_v], &vec![x_p], &vec![x_v]).unwrap();

        let opened = open_fp(&x_m_p, &x_m_v).unwrap();
        assert_eq!(opened[0], f2_to_fe(x_p.bit));
    }
}

#[test]
fn test_bit_add_carry_f61p() {
    let power = 6;
    // adding
    //   110101
    //   101110
    // --------
    //  1100011
    let x = vec![true, false, true, false, true, true];
    let y = vec![false, true, true, true, false, true];
    let expected = vec![true, true, false, false, false, true];
    let carry = true;

    let mut vx_p = Vec::new();
    let mut vx_v = Vec::new();
    let mut vy_p = Vec::new();
    let mut vy_v = Vec::new();
    for i in 0..power {
        let (p, v) = input_bit(x[i]);
        vx_p.push(p);
        vx_v.push(v);
        let (p, v) = input_bit(y[i]);
        vy_p.push(p);
        vy_v.push(v);
    }
    let default_fe_p = MacFpProver { value: Fp::zero() };
    let default_fe_v = MacFpVerifier { value: Fp::zero() };
    let x_batch_p = vec![EdabitsProver { bits: vx_p, value: default_fe_p }];
    let x_batch_v = vec![EdabitsVerifier { bits: vx_v, value: default_fe_v }];
    let y_batch_p = vec![EdabitsProver { bits: vy_p, value: default_fe_p }];
    let y_batch_v = vec![EdabitsVerifier { bits: vy_v, value: default_fe_v }];

    let (res_p, res_v) = bit_add_carry(
        &x_batch_p,
        &x_batch_v,
        &y_batch_p,
        &y_batch_v,
        &Vec::new(),
        &Vec::new(),
    )
    .unwrap();

    let opened = open_bits(&res_p[0].0, &res_v[0].0).unwrap();
    for i in 0..power {
        assert_eq!(expected[i], opened[i]);
    }
    let opened_carry = open_bits(&vec![res_p[0].1], &vec![res_v[0].1]).unwrap();
    assert_eq!(carry, opened_carry[0]);
}

#[test]
fn test_fdabit_f61p() {
    let count = 100;
    let mut rng = StdRng::seed_from_u64(103);
    let (dabits_p, dabits_v) = random_dabits(&mut rng, count);
    fdabit(&mut rng, &dabits_p, &dabits_v).unwrap();
}

#[test]
fn test_conv_f61p() {
    let nb_edabits = 50;
    let with_quicksilver = true;
    let mut rng = StdRng::seed_from_u64(104);
    for n in 1..nb_edabits {
        let (edabits_p, edabits_v) = random_edabits(&mut rng, NB_BITS, n);
        conv(
            &mut rng,
            DEFAULT_NUM_BUCKET,
            DEFAULT_NUM_CUT,
            &edabits_p,
            &edabits_v,
            with_quicksilver,
        )
        .unwrap();
    }
}

#[test]
fn role_handles_drive_a_session() {
    let mut prover = edabits::ProverConv::init();
    let mut verifier = edabits::VerifierConv::init();
    let mut rng = StdRng::seed_from_u64(105);

    let (ep, ev) = prover.random_edabits(&mut rng, 16, 4);
    prover.conv(&mut rng, 3, 3, &ep, &ev, true).unwrap();

    let (ep2, ev2) = verifier.random_edabits(&mut rng, 16, 2);
    verifier.conv(&mut rng, 3, 3, &ep2, &ev2, false).unwrap();

    let (dp, dv) = prover.random_dabits(&mut rng, 10);
    fdabit(&mut rng, &dp, &dv).unwrap();

    let mut tp = Vec::new();
    let mut tv = Vec::new();
    verifier.random_triples(&mut rng, 8, &mut tp, &mut tv);
    assert_eq!(tp.len(), 8);
    assert_eq!(tv.len(), 8);

    let mut worker = prover.duplicate();
    let mut peer = verifier.duplicate();
    let (ep3, ev3) = worker.random_edabits(&mut rng, 8, 1);
    peer.conv(&mut rng, 2, 2, &ep3, &ev3, true).unwrap();
}
