//! Exact values for the field helpers, the parameter check, the shuffle, and
//! the error paths of the commitment-interface model.

use edabits::mac::{
    check_zero_fp, input_bit, input_fp, open_bits, quicksilver_check_multiply, MacBitProver,
    MacBitVerifier, MacFpProver, MacFpVerifier,
};
use edabits::{
    bit_add_carry, check_parameters, conv, convert_bits_to_field, generate_permutation,
    power_two, random_edabits, rng_from_seed, swap_indices, Error, Fp, P,
};
use edabits::field::f2_to_fe;
use rand::rngs::StdRng;
use rand::SeedableRng;

#[test]
fn field_arithmetic_exact_values() {
    // P reduces to zero and the field wraps at P
    assert_eq!(Fp::from_u64(P), Fp::zero());
    assert_eq!(Fp::from_u64(P - 1).add(Fp::one()), Fp::zero());
    assert_eq!(Fp::zero().sub(Fp::one()), Fp::from_u64(P - 1));
    assert_eq!(Fp::one().neg(), Fp::from_u64(P - 1));
    // 2^60 * 4 = 2^62 = 2 * (P + 1), so it reduces to 2
    let a = Fp::from_u64(1u64 << 60);
    let b = Fp::from_u64(4);
    assert_eq!(a.mul(b), Fp::from_u64(2));
    assert_eq!(Fp::from_u64(53).as_u64(), 53);
}

#[test]
fn lift_and_fold_exact_values() {
    assert_eq!(f2_to_fe(false), Fp::zero());
    assert_eq!(f2_to_fe(true), Fp::one());
    // 110101 in binary, least significant bit first
    let bits = vec![true, false, true, false, true, true];
    assert_eq!(convert_bits_to_field(&bits), Fp::from_u64(53));
    assert_eq!(convert_bits_to_field(&[]), Fp::zero());
}

#[test]
fn power_two_wraps_at_the_modulus() {
    assert_eq!(power_two(0), Fp::one());
    assert_eq!(power_two(6), Fp::from_u64(64));
    // 2^61 = P + 1 reduces to 1
    assert_eq!(power_two(61), Fp::one());
}

#[test]
fn parameter_check_boundary() {
    // floor(log2(1025)) = 10: 10 + 49 = 59 is accepted, 10 + 50 = 60 is not
    assert_eq!(check_parameters(1024, 49), Ok(()));
    assert_eq!(check_parameters(1024, 50), Err(Error::InvalidParameters));
    assert_eq!(check_parameters(0, 59), Ok(()));
    assert_eq!(check_parameters(0, 60), Err(Error::InvalidParameters));
}

#[test]
fn shuffle_is_deterministic_in_the_seed() {
    let seed = [7u8; 16];
    let mut rng_a = rng_from_seed(&seed);
    let mut rng_b = rng_from_seed(&seed);
    let idx_a = swap_indices(&mut rng_a, 40);
    let idx_b = swap_indices(&mut rng_b, 40);
    assert_eq!(idx_a, idx_b);
    for (k, d) in idx_a.iter().enumerate() {
        assert!(*d < 40 - 1 - k);
    }
    // the same swap positions applied to two aligned pools keep them aligned
    let mut xs: Vec<u64> = (0..40).collect();
    let mut ys: Vec<u64> = (100..140).collect();
    generate_permutation(&idx_a, &mut xs);
    generate_permutation(&idx_b, &mut ys);
    for i in 0..40 {
        assert_eq!(xs[i] + 100, ys[i]);
    }
    // a different seed gives a different permutation of 40 elements
    let mut rng_c = rng_from_seed(&[8u8; 16]);
    let idx_c = swap_indices(&mut rng_c, 40);
    assert_ne!(idx_a, idx_c);
}

#[test]
fn open_catches_a_mismatched_batch() {
    let (b_p, _) = input_bit(true);
    let (_, b_v) = input_bit(false);
    assert_eq!(open_bits(&vec![b_p], &vec![b_v]), Err(Error::MacMismatch));
    let (g_p, g_v) = input_bit(true);
    assert_eq!(open_bits(&vec![g_p], &vec![g_v]), Ok(vec![true]));
}

#[test]
fn check_zero_rejects_nonzero_values() {
    let (z_p, z_v) = input_fp(Fp::zero());
    assert_eq!(check_zero_fp(&vec![z_p], &vec![z_v]), Ok(()));
    let (n_p, n_v) = input_fp(Fp::one());
    assert_eq!(check_zero_fp(&vec![n_p], &vec![n_v]), Err(Error::CheckZeroFailed));
    let forged_p = MacFpProver { value: Fp::one() };
    let honest_v = MacFpVerifier { value: Fp::zero() };
    assert_eq!(check_zero_fp(&vec![forged_p], &vec![honest_v]), Err(Error::CheckZeroFailed));
}

#[test]
fn multiply_check_rejects_a_wrong_product() {
    let (a_p, a_v) = input_bit(true);
    let (b_p, b_v) = input_bit(true);
    let (good_p, good_v) = input_bit(true);
    assert_eq!(
        quicksilver_check_multiply(&vec![(a_p, b_p, good_p)], &vec![(a_v, b_v, good_v)]),
        Ok(())
    );
    let (bad_p, bad_v) = input_bit(false);
    assert_eq!(
        quicksilver_check_multiply(&vec![(a_p, b_p, bad_p)], &vec![(a_v, b_v, bad_v)]),
        Err(Error::MultiplyCheckFailed)
    );
    let forged_p = MacBitProver { bit: false };
    let honest_v = MacBitVerifier { bit: true };
    assert_eq!(
        quicksilver_check_multiply(&vec![(a_p, b_p, forged_p)], &vec![(a_v, b_v, honest_v)]),
        Err(Error::MultiplyCheckFailed)
    );
}

#[test]
fn adder_rejects_mismatched_batches() {
    let mut rng = StdRng::seed_from_u64(301);
    let (x_p, x_v) = random_edabits(&mut rng, 6, 2);
    let (y_p, y_v) = random_edabits(&mut rng, 6, 1);
    let res = bit_add_carry(&x_p, &x_v, &y_p, &y_v, &Vec::new(), &Vec::new());
    assert_eq!(res.err(), Some(Error::IncompatibleVectors));
}

#[test]
fn conv_accepts_with_randomizer_triples() {
    // the same sweep with the randomizer-consuming multiplication check
    let mut rng = StdRng::seed_from_u64(302);
    for n in [1usize, 3, 7] {
        let (edabits_p, edabits_v) = random_edabits(&mut rng, 8, n);
        conv(&mut rng, 3, 4, &edabits_p, &edabits_v, false).unwrap();
    }
}
