//! Edabits conversion core: a two-party check that a committed value in a
//! large prime field agrees with its committed bit-decomposition over the
//! binary field.
//!
//! The homomorphic-commitment collaborators are consumed as opaque
//! interfaces; this crate models an authenticated value as the pair of the
//! prover's working copy and the committed record the functionality holds for
//! the verifier, and verifies the protocol logic that runs between the
//! commitment operations: the batched ripple-carry adder, the dabit
//! consistency check, the cut-and-choose conversion driver, and the field and
//! shuffle helpers they rely on.

use vstd::prelude::*;

pub mod adder;
pub mod conv;
pub mod fdabit;
pub mod field;
pub mod mac;
pub mod params;
pub mod perm;
pub mod rng;
pub mod roles;

pub use adder::{bit_add_carry, convert_bit_2_field};
pub use conv::{
    check_cut_edabits, check_cut_triples, conv, conv_loop, copy_edabits_prover,
    copy_edabits_verifier, random_edabits, random_triples,
};
pub use fdabit::{fdabit, random_dabits, FDABIT_SECURITY_PARAMETER};
pub use field::{convert_bits_to_field, f2_to_fe, power_two, Fp, P};
pub use mac::{
    DabitProver, DabitVerifier, EdabitsProver, EdabitsVerifier, MacBitProver, MacBitVerifier,
    MacFpProver, MacFpVerifier, TripleProver, TripleVerifier,
};
pub use params::check_parameters;
pub use perm::{generate_permutation, swap_indices};
pub use rng::rng_from_seed;
pub use roles::{ProverConv, VerifierConv};

verus! {

/// The failures the conversion protocol distinguishes, one per failing stage.
#[derive(Clone, Copy, PartialEq, Eq, Structural, Debug)]
pub enum Error {
    /// A statistical check of `fdabit` could wrap the prime modulus.
    InvalidParameters,
    /// The two input batches of `bit_add_carry` have different lengths.
    IncompatibleVectors,
    /// The dabit consistency proof failed its cross-field comparison.
    FailFdabit,
    /// An opened random edabit did not fold to its committed field value.
    WrongOpenRandomEdabit,
    /// An opened batch disagreed with the committed record.
    MacMismatch,
    /// A batched zero check found a value that is not zero.
    CheckZeroFailed,
    /// A batched multiplication-triple check found an inconsistent triple.
    MultiplyCheckFailed,
}

} // verus!
