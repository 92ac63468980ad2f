//! The per-role handles of the conversion protocol.
//!
//! A session is driven synchronously: every prover action has a matched
//! verifier action at the same step.  The protocol logic itself is written
//! once over both halves of each authenticated value; the two handles expose
//! that joint execution under each role's name, so a caller holds one handle
//! per role as it would in a two-party deployment.  Session setup against the
//! commitment machinery is out of scope, which leaves the handles stateless.

use rand::rngs::StdRng;
use vstd::prelude::*;
use crate::Error;
use crate::mac::{
    edabit_consistent, edabit_ok, DabitProver, DabitVerifier, EdabitsProver, EdabitsVerifier,
    TripleProver, TripleVerifier, triple_mul, triple_ok,
};

verus! {

/// The prover's handle on a conversion session.
pub struct ProverConv {}

/// The verifier's handle on a conversion session.
pub struct VerifierConv {}

impl ProverConv {
    /// Opens the prover's half of a session.
    pub fn init() -> (r: Self) {
        ProverConv {  }
    }

    /// A fresh handle for a parallel bucket worker.
    pub fn duplicate(&self) -> (r: Self) {
        ProverConv {  }
    }

    /// Generates random edabits for the session; see
    /// [`crate::conv::random_edabits`].
    pub fn random_edabits(&mut self, rng: &mut StdRng, nb_bits: usize, num: usize) -> (r: (
        Vec<EdabitsProver>,
        Vec<EdabitsVerifier>,
    ))
        ensures
            r.0@.len() == num,
            r.1@.len() == num,
            forall|k: int| 0 <= k < num ==> (#[trigger] r.0@[k]).bits@.len() == nb_bits,
            forall|k: int| 0 <= k < num ==> (#[trigger] r.1@[k]).bits@.len() == nb_bits,
            forall|k: int| 0 <= k < num ==> edabit_ok(#[trigger] r.0@[k], r.1@[k]),
            forall|k: int| 0 <= k < num ==> edabit_consistent(#[trigger] r.0@[k]),
    {
        crate::conv::random_edabits(rng, nb_bits, num)
    }

    /// Generates random dabits for the session; see
    /// [`crate::fdabit::random_dabits`].
    pub fn random_dabits(&mut self, rng: &mut StdRng, num: usize) -> (r: (
        Vec<DabitProver>,
        Vec<DabitVerifier>,
    ))
        ensures
            r.0@.len() == num,
            r.1@.len() == num,
            crate::fdabit::dabits_honest(r.0@, r.1@),
    {
        crate::fdabit::random_dabits(rng, num)
    }

    /// Generates random multiplication triples for the session; see
    /// [`crate::conv::random_triples`].
    pub fn random_triples(
        &mut self,
        rng: &mut StdRng,
        num: usize,
        out_p: &mut Vec<TripleProver>,
        out_v: &mut Vec<TripleVerifier>,
    )
        requires
            old(out_p)@.len() == old(out_v)@.len(),
        ensures
            final(out_p)@.len() == old(out_p)@.len() + num,
            final(out_v)@.len() == old(out_v)@.len() + num,
            forall|j: int|
                old(out_p)@.len() <= j < final(out_p)@.len() ==> triple_ok(
                    #[trigger] final(out_p)@[j],
                    final(out_v)@[j],
                ),
            forall|j: int|
                old(out_v)@.len() <= j < final(out_v)@.len() ==> triple_mul(
                    #[trigger] final(out_v)@[j],
                ),
    {
        crate::conv::random_triples(rng, num, out_p, out_v)
    }

    /// Runs the conversion check; see [`crate::conv::conv`].
    pub fn conv(
        &mut self,
        rng: &mut StdRng,
        num_bucket: usize,
        num_cut: usize,
        edabits_vector_p: &Vec<EdabitsProver>,
        edabits_vector_v: &Vec<EdabitsVerifier>,
        with_quicksilver: bool,
    ) -> (res: Result<(), Error>)
        requires
            edabits_vector_p@.len() >= 1,
            edabits_vector_v@.len() == edabits_vector_p@.len(),
            crate::adder::uniform_width_prover(
                edabits_vector_p@,
                edabits_vector_p@[0].bits@.len() as int,
            ),
            crate::adder::uniform_width_verifier(
                edabits_vector_v@,
                edabits_vector_p@[0].bits@.len() as int,
            ),
            edabits_vector_p@.len() * num_bucket + num_cut < usize::MAX,
            (edabits_vector_p@.len() * num_bucket + num_cut)
                * edabits_vector_p@[0].bits@.len() < usize::MAX,
        ensures
            (crate::conv::edabits_honest(edabits_vector_p@, edabits_vector_v@)
                && crate::params::params_ok(
                (edabits_vector_p@.len() * num_bucket) as nat,
                crate::fdabit::gamma_of((edabits_vector_p@.len() * num_bucket) as nat),
            )) ==> res is Ok,
            (crate::conv::edabits_aligned(edabits_vector_p@, edabits_vector_v@) && num_bucket
                >= 1 && crate::params::params_ok(
                (edabits_vector_p@.len() * num_bucket) as nat,
                crate::fdabit::gamma_of((edabits_vector_p@.len() * num_bucket) as nat),
            )) ==> (res is Ok <==> crate::conv::edabits_all_consistent(edabits_vector_p@)),
    {
        crate::conv::conv(
            rng,
            num_bucket,
            num_cut,
            edabits_vector_p,
            edabits_vector_v,
            with_quicksilver,
        )
    }
}

impl VerifierConv {
    /// Opens the verifier's half of a session.
    pub fn init() -> (r: Self) {
        VerifierConv {  }
    }

    /// A fresh handle for a parallel bucket worker.
    pub fn duplicate(&self) -> (r: Self) {
        VerifierConv {  }
    }

    /// The verifier's side of random edabit generation: the same joint step
    /// as [`ProverConv::random_edabits`].
    pub fn random_edabits(&mut self, rng: &mut StdRng, nb_bits: usize, num: usize) -> (r: (
        Vec<EdabitsProver>,
        Vec<EdabitsVerifier>,
    ))
        ensures
            r.0@.len() == num,
            r.1@.len() == num,
            forall|k: int| 0 <= k < num ==> (#[trigger] r.0@[k]).bits@.len() == nb_bits,
            forall|k: int| 0 <= k < num ==> (#[trigger] r.1@[k]).bits@.len() == nb_bits,
            forall|k: int| 0 <= k < num ==> edabit_ok(#[trigger] r.0@[k], r.1@[k]),
            forall|k: int| 0 <= k < num ==> edabit_consistent(#[trigger] r.0@[k]),
    {
        crate::conv::random_edabits(rng, nb_bits, num)
    }

    /// The verifier's side of random dabit generation: the same joint step as
    /// [`ProverConv::random_dabits`].
    pub fn random_dabits(&mut self, rng: &mut StdRng, num: usize) -> (r: (
        Vec<DabitProver>,
        Vec<DabitVerifier>,
    ))
        ensures
            r.0@.len() == num,
            r.1@.len() == num,
            crate::fdabit::dabits_honest(r.0@, r.1@),
    {
        crate::fdabit::random_dabits(rng, num)
    }

    /// The verifier's side of random triple generation: the same joint step
    /// as [`ProverConv::random_triples`].
    pub fn random_triples(
        &mut self,
        rng: &mut StdRng,
        num: usize,
        out_p: &mut Vec<TripleProver>,
        out_v: &mut Vec<TripleVerifier>,
    )
        requires
            old(out_p)@.len() == old(out_v)@.len(),
        ensures
            final(out_p)@.len() == old(out_p)@.len() + num,
            final(out_v)@.len() == old(out_v)@.len() + num,
            forall|j: int|
                old(out_p)@.len() <= j < final(out_p)@.len() ==> triple_ok(
                    #[trigger] final(out_p)@[j],
                    final(out_v)@[j],
                ),
            forall|j: int|
                old(out_v)@.len() <= j < final(out_v)@.len() ==> triple_mul(
                    #[trigger] final(out_v)@[j],
                ),
    {
        crate::conv::random_triples(rng, num, out_p, out_v)
    }

    /// The verifier's side of the conversion check: the same joint step as
    /// [`ProverConv::conv`].
    pub fn conv(
        &mut self,
        rng: &mut StdRng,
        num_bucket: usize,
        num_cut: usize,
        edabits_vector_p: &Vec<EdabitsProver>,
        edabits_vector_v: &Vec<EdabitsVerifier>,
        with_quicksilver: bool,
    ) -> (res: Result<(), Error>)
        requires
            edabits_vector_p@.len() >= 1,
            edabits_vector_v@.len() == edabits_vector_p@.len(),
            crate::adder::uniform_width_prover(
                edabits_vector_p@,
                edabits_vector_p@[0].bits@.len() as int,
            ),
            crate::adder::uniform_width_verifier(
                edabits_vector_v@,
                edabits_vector_p@[0].bits@.len() as int,
            ),
            edabits_vector_p@.len() * num_bucket + num_cut < usize::MAX,
            (edabits_vector_p@.len() * num_bucket + num_cut)
                * edabits_vector_p@[0].bits@.len() < usize::MAX,
        ensures
            (crate::conv::edabits_honest(edabits_vector_p@, edabits_vector_v@)
                && crate::params::params_ok(
                (edabits_vector_p@.len() * num_bucket) as nat,
                crate::fdabit::gamma_of((edabits_vector_p@.len() * num_bucket) as nat),
            )) ==> res is Ok,
            (crate::conv::edabits_aligned(edabits_vector_p@, edabits_vector_v@) && num_bucket
                >= 1 && crate::params::params_ok(
                (edabits_vector_p@.len() * num_bucket) as nat,
                crate::fdabit::gamma_of((edabits_vector_p@.len() * num_bucket) as nat),
            )) ==> (res is Ok <==> crate::conv::edabits_all_consistent(edabits_vector_p@)),
    {
        crate::conv::conv(
            rng,
            num_bucket,
            num_cut,
            edabits_vector_p,
            edabits_vector_v,
            with_quicksilver,
        )
    }
}

} // verus!
