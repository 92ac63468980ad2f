//! Authenticated values and the interface of the homomorphic-commitment
//! collaborators.
//!
//! An authenticated value is modelled as the pair of the prover's working
//! copy and the committed record held for the verifier.  The commitment
//! machinery itself is out of scope; its guaranteed behaviour at the
//! interface — local affine combinators, `input`, `open` with its check
//! against the committed record, `check_zero`, and the batched
//! multiplication-triple checks — is implemented here over that model, with
//! exact contracts saying when each check accepts.

use vstd::prelude::*;
use rand::rngs::StdRng;
use crate::Error;
use crate::field::{Fp, P, fold_bits_int, convert_bits_to_field};
use crate::rng::gen_bool;

verus! {

/// The prover's working copy of an authenticated bit.
#[derive(Clone, Copy, PartialEq, Eq, Structural, Debug)]
pub struct MacBitProver {
    pub bit: bool,
}

/// The committed record of an authenticated bit, held for the verifier.
#[derive(Clone, Copy, PartialEq, Eq, Structural, Debug)]
pub struct MacBitVerifier {
    pub bit: bool,
}

/// The prover's working copy of an authenticated prime-field value.
#[derive(Clone, Copy, PartialEq, Eq, Structural, Debug)]
pub struct MacFpProver {
    pub value: Fp,
}

/// The committed record of an authenticated prime-field value.
#[derive(Clone, Copy, PartialEq, Eq, Structural, Debug)]
pub struct MacFpVerifier {
    pub value: Fp,
}

/// A shared bit authenticated both in the binary and in the prime field.
#[derive(Clone, Copy, Debug)]
pub struct DabitProver {
    pub bit: MacBitProver,
    pub value: MacFpProver,
}

/// The verifier's half of a dabit.
#[derive(Clone, Copy, Debug)]
pub struct DabitVerifier {
    pub bit: MacBitVerifier,
    pub value: MacFpVerifier,
}

/// An authenticated field value together with its authenticated little-endian
/// bit decomposition, prover side.
#[derive(Clone, Debug)]
pub struct EdabitsProver {
    pub bits: Vec<MacBitProver>,
    pub value: MacFpProver,
}

/// The verifier's half of an edabit.
#[derive(Clone, Debug)]
pub struct EdabitsVerifier {
    pub bits: Vec<MacBitVerifier>,
    pub value: MacFpVerifier,
}

/// A multiplication triple over the binary field, prover side.
pub type TripleProver = (MacBitProver, MacBitProver, MacBitProver);

/// A multiplication triple over the binary field, verifier side.
pub type TripleVerifier = (MacBitVerifier, MacBitVerifier, MacBitVerifier);

/// A multiplication triple over the prime field, prover side.
pub type FpTripleProver = (MacFpProver, MacFpProver, MacFpProver);

/// A multiplication triple over the prime field, verifier side.
pub type FpTripleVerifier = (MacFpVerifier, MacFpVerifier, MacFpVerifier);

/// The prover's copy of a bit agrees with the committed record.
pub open spec fn bit_ok(p: MacBitProver, v: MacBitVerifier) -> bool {
    p.bit == v.bit
}

/// The prover's copy of a field value agrees with the committed record.
pub open spec fn fp_ok(p: MacFpProver, v: MacFpVerifier) -> bool {
    p.value == v.value
}

/// Both components of a dabit agree with their committed records.
pub open spec fn dabit_ok(p: DabitProver, v: DabitVerifier) -> bool {
    bit_ok(p.bit, v.bit) && fp_ok(p.value, v.value)
}

/// The dabit invariant: the field value is the lift of the bit.
pub open spec fn dabit_consistent(p: DabitProver) -> bool {
    p.value.value.as_int() == (if p.bit.bit {
        1int
    } else {
        0int
    })
}

/// The cleartext bits of a prover-side bit vector.
pub open spec fn bits_of_prover(bits: Seq<MacBitProver>) -> Seq<bool> {
    bits.map_values(|b: MacBitProver| b.bit)
}

/// Every component of an edabit agrees with its committed record.
pub open spec fn edabit_ok(p: EdabitsProver, v: EdabitsVerifier) -> bool {
    &&& p.bits.len() == v.bits.len()
    &&& forall|i: int| 0 <= i < p.bits.len() ==> bit_ok(#[trigger] p.bits[i], v.bits[i])
    &&& fp_ok(p.value, v.value)
}

/// The edabit invariant: the field value is the fold of the bits.
pub open spec fn edabit_consistent(p: EdabitsProver) -> bool {
    p.value.value.as_int() == fold_bits_int(bits_of_prover(p.bits@)) % (P as int)
}

/// Both halves of a binary-field triple agree with their committed records.
pub open spec fn triple_ok(tp: TripleProver, tv: TripleVerifier) -> bool {
    bit_ok(tp.0, tv.0) && bit_ok(tp.1, tv.1) && bit_ok(tp.2, tv.2)
}

/// The committed triple satisfies the multiplicative relation over `F_2`.
pub open spec fn triple_mul(tv: TripleVerifier) -> bool {
    tv.2.bit == (tv.0.bit && tv.1.bit)
}

/// Both halves of a prime-field triple agree with their committed records.
pub open spec fn fp_triple_ok(tp: FpTripleProver, tv: FpTripleVerifier) -> bool {
    fp_ok(tp.0, tv.0) && fp_ok(tp.1, tv.1) && fp_ok(tp.2, tv.2)
}

/// The committed triple satisfies the multiplicative relation over `F_p`.
pub open spec fn fp_triple_mul(tv: FpTripleVerifier) -> bool {
    tv.2.value.as_int() == (tv.0.value.as_int() * tv.1.value.as_int()) % (P as int)
}

// ---------------------------------------------------------------------------
// Local homomorphic combinators: no communication, each role computes on its
// own copies.
// ---------------------------------------------------------------------------

/// Binary-field addition of two authenticated bits, prover side.
pub fn add_bit_prover(a: MacBitProver, b: MacBitProver) -> (r: MacBitProver)
    ensures
        r.bit == (a.bit != b.bit),
{
    MacBitProver { bit: a.bit != b.bit }
}

/// Binary-field addition of two authenticated bits, verifier side.
pub fn add_bit_verifier(a: MacBitVerifier, b: MacBitVerifier) -> (r: MacBitVerifier)
    ensures
        r.bit == (a.bit != b.bit),
{
    MacBitVerifier { bit: a.bit != b.bit }
}

/// Multiplication of an authenticated bit by a public bit, prover side.
pub fn mult_cst_bit_prover(e: bool, x: MacBitProver) -> (r: MacBitProver)
    ensures
        r.bit == (e && x.bit),
{
    MacBitProver { bit: e && x.bit }
}

/// Multiplication of an authenticated bit by a public bit, verifier side.
pub fn mult_cst_bit_verifier(e: bool, x: MacBitVerifier) -> (r: MacBitVerifier)
    ensures
        r.bit == (e && x.bit),
{
    MacBitVerifier { bit: e && x.bit }
}

/// Addition of a public bit to an authenticated bit, prover side.
pub fn add_cst_bit_prover(c: bool, x: MacBitProver) -> (r: MacBitProver)
    ensures
        r.bit == (c != x.bit),
{
    MacBitProver { bit: c != x.bit }
}

/// Addition of a public bit to an authenticated bit, verifier side.
pub fn add_cst_bit_verifier(c: bool, x: MacBitVerifier) -> (r: MacBitVerifier)
    ensures
        r.bit == (c != x.bit),
{
    MacBitVerifier { bit: c != x.bit }
}

/// Prime-field addition of two authenticated values, prover side.
pub fn add_fp_prover(a: MacFpProver, b: MacFpProver) -> (r: MacFpProver)
    ensures
        r.value.as_int() == (a.value.as_int() + b.value.as_int()) % (P as int),
{
    MacFpProver { value: a.value.add(b.value) }
}

/// Prime-field addition of two authenticated values, verifier side.
pub fn add_fp_verifier(a: MacFpVerifier, b: MacFpVerifier) -> (r: MacFpVerifier)
    ensures
        r.value.as_int() == (a.value.as_int() + b.value.as_int()) % (P as int),
{
    MacFpVerifier { value: a.value.add(b.value) }
}

/// Negation of an authenticated field value, prover side.
pub fn neg_fp_prover(a: MacFpProver) -> (r: MacFpProver)
    ensures
        r.value.as_int() == (P as int - a.value.as_int()) % (P as int),
{
    MacFpProver { value: a.value.neg() }
}

/// Negation of an authenticated field value, verifier side.
pub fn neg_fp_verifier(a: MacFpVerifier) -> (r: MacFpVerifier)
    ensures
        r.value.as_int() == (P as int - a.value.as_int()) % (P as int),
{
    MacFpVerifier { value: a.value.neg() }
}

/// Addition of a public constant to an authenticated value, prover side.
pub fn affine_add_cst_prover(c: Fp, x: MacFpProver) -> (r: MacFpProver)
    ensures
        r.value.as_int() == (c.as_int() + x.value.as_int()) % (P as int),
{
    MacFpProver { value: c.add(x.value) }
}

/// Addition of a public constant to an authenticated value, verifier side.
pub fn affine_add_cst_verifier(c: Fp, x: MacFpVerifier) -> (r: MacFpVerifier)
    ensures
        r.value.as_int() == (c.as_int() + x.value.as_int()) % (P as int),
{
    MacFpVerifier { value: c.add(x.value) }
}

/// Multiplication of an authenticated value by a public constant, prover side.
pub fn affine_mult_cst_prover(c: Fp, x: MacFpProver) -> (r: MacFpProver)
    ensures
        r.value.as_int() == (c.as_int() * x.value.as_int()) % (P as int),
{
    MacFpProver { value: c.mul(x.value) }
}

/// Multiplication of an authenticated value by a public constant, verifier
/// side.
pub fn affine_mult_cst_verifier(c: Fp, x: MacFpVerifier) -> (r: MacFpVerifier)
    ensures
        r.value.as_int() == (c.as_int() * x.value.as_int()) % (P as int),
{
    MacFpVerifier { value: c.mul(x.value) }
}

/// Constant-time selection between two authenticated values by a public bit,
/// prover side.
pub fn select_fp_prover(a: MacFpProver, b: MacFpProver, choice: bool) -> (r: MacFpProver)
    ensures
        r == (if choice { b } else { a }),
{
    MacFpProver { value: crate::field::select(a.value, b.value, choice) }
}

/// Constant-time selection between two authenticated values by a public bit,
/// verifier side.
pub fn select_fp_verifier(a: MacFpVerifier, b: MacFpVerifier, choice: bool) -> (r: MacFpVerifier)
    ensures
        r == (if choice { b } else { a }),
{
    MacFpVerifier { value: crate::field::select(a.value, b.value, choice) }
}

/// Horner fold of the cleartext component of prover-side authenticated bits.
pub fn convert_bits_to_field_mac(v: &[MacBitProver]) -> (r: Fp)
    ensures
        r.as_int() == fold_bits_int(bits_of_prover(v@)) % (P as int),
{
    let mut bits: Vec<bool> = Vec::new();
    let n = v.len();
    let mut i: usize = 0;
    while i < n
        invariant
            i <= n,
            n == v@.len(),
            bits@ =~= bits_of_prover(v@).take(i as int),
        decreases n - i,
    {
        bits.push(v[i].bit);
        i = i + 1;
    }
    proof {
        assert(bits_of_prover(v@).take(n as int) =~= bits_of_prover(v@));
    }
    convert_bits_to_field(bits.as_slice())
}

// ---------------------------------------------------------------------------
// The interface of the commitment functionality: `random`, `input`, `open`,
// `check_zero`, and the batched multiplication checks, each with an exact
// acceptance contract.
// ---------------------------------------------------------------------------

/// A fresh uniform committed bit; both copies agree by construction.
pub fn random_bit_mac(rng: &mut StdRng) -> (r: (MacBitProver, MacBitVerifier))
    ensures
        bit_ok(r.0, r.1),
{
    let b = gen_bool(rng);
    (MacBitProver { bit: b }, MacBitVerifier { bit: b })
}

/// Commit a prover-chosen bit: the record equals what the prover handed in.
pub fn input_bit(b: bool) -> (r: (MacBitProver, MacBitVerifier))
    ensures
        bit_ok(r.0, r.1),
        r.0.bit == b,
{
    (MacBitProver { bit: b }, MacBitVerifier { bit: b })
}

/// Commit a prover-chosen field value: the record equals what the prover
/// handed in.
pub fn input_fp(x: Fp) -> (r: (MacFpProver, MacFpVerifier))
    ensures
        fp_ok(r.0, r.1),
        r.0.value == x,
{
    (MacFpProver { value: x }, MacFpVerifier { value: x })
}

/// Batched open over the binary field: reveals the prover's cleartexts and
/// accepts exactly when every one agrees with its committed record.
pub fn open_bits(p: &Vec<MacBitProver>, v: &Vec<MacBitVerifier>) -> (r: Result<Vec<bool>, Error>)
    ensures
        match r {
            Ok(bits) => {
                &&& p@.len() == v@.len()
                &&& bits@.len() == p@.len()
                &&& forall|i: int|
                    0 <= i < p@.len() ==> bits@[i] == p@[i].bit && bit_ok(
                        #[trigger] p@[i],
                        v@[i],
                    )
            },
            Err(e) => {
                &&& e == Error::MacMismatch
                &&& (p@.len() != v@.len() || exists|i: int|
                    0 <= i < p@.len() && !bit_ok(#[trigger] p@[i], v@[i]))
            },
        },
{
    if p.len() != v.len() {
        return Err(Error::MacMismatch);
    }
    let n = p.len();
    let mut out: Vec<bool> = Vec::new();
    let mut i: usize = 0;
    while i < n
        invariant
            i <= n,
            n == p@.len() == v@.len(),
            out@.len() == i,
            forall|j: int| 0 <= j < i ==> out@[j] == p@[j].bit && bit_ok(#[trigger] p@[j], v@[j]),
        decreases n - i,
    {
        if p[i].bit != v[i].bit {
            return Err(Error::MacMismatch);
        }
        out.push(p[i].bit);
        i = i + 1;
    }
    Ok(out)
}

/// Batched open over the prime field: reveals the prover's cleartexts and
/// accepts exactly when every one agrees with its committed record.
pub fn open_fp(p: &Vec<MacFpProver>, v: &Vec<MacFpVerifier>) -> (r: Result<Vec<Fp>, Error>)
    ensures
        match r {
            Ok(vals) => {
                &&& p@.len() == v@.len()
                &&& vals@.len() == p@.len()
                &&& forall|i: int|
                    0 <= i < p@.len() ==> vals@[i] == p@[i].value && fp_ok(
                        #[trigger] p@[i],
                        v@[i],
                    )
            },
            Err(e) => {
                &&& e == Error::MacMismatch
                &&& (p@.len() != v@.len() || exists|i: int|
                    0 <= i < p@.len() && !fp_ok(#[trigger] p@[i], v@[i]))
            },
        },
{
    if p.len() != v.len() {
        return Err(Error::MacMismatch);
    }
    let n = p.len();
    let mut out: Vec<Fp> = Vec::new();
    let mut i: usize = 0;
    while i < n
        invariant
            i <= n,
            n == p@.len() == v@.len(),
            out@.len() == i,
            forall|j: int| 0 <= j < i ==> out@[j] == p@[j].value && fp_ok(#[trigger] p@[j], v@[j]),
        decreases n - i,
    {
        if !p[i].value.equals(v[i].value) {
            proof {
                Fp::lemma_eq_int(p@[i as int].value, v@[i as int].value);
            }
            return Err(Error::MacMismatch);
        }
        proof {
            Fp::lemma_eq_int(p@[i as int].value, v@[i as int].value);
        }
        out.push(p[i].value);
        i = i + 1;
    }
    Ok(out)
}

/// Batched zero check over the binary field: accepts exactly when every bit
/// agrees with its committed record and the committed bit is zero.
pub fn check_zero_bits(p: &Vec<MacBitProver>, v: &Vec<MacBitVerifier>) -> (r: Result<(), Error>)
    ensures
        match r {
            Ok(()) => {
                &&& p@.len() == v@.len()
                &&& forall|i: int|
                    0 <= i < p@.len() ==> bit_ok(#[trigger] p@[i], v@[i]) && !p@[i].bit
            },
            Err(e) => {
                &&& e == Error::CheckZeroFailed
                &&& (p@.len() != v@.len() || exists|i: int|
                    0 <= i < p@.len() && !(bit_ok(#[trigger] p@[i], v@[i]) && !p@[i].bit))
            },
        },
{
    if p.len() != v.len() {
        return Err(Error::CheckZeroFailed);
    }
    let n = p.len();
    let mut i: usize = 0;
    while i < n
        invariant
            i <= n,
            n == p@.len() == v@.len(),
            forall|j: int| 0 <= j < i ==> bit_ok(#[trigger] p@[j], v@[j]) && !p@[j].bit,
        decreases n - i,
    {
        if p[i].bit || v[i].bit {
            return Err(Error::CheckZeroFailed);
        }
        i = i + 1;
    }
    Ok(())
}

/// Batched zero check over the prime field: accepts exactly when every value
/// agrees with its committed record and the committed value is zero.
pub fn check_zero_fp(p: &Vec<MacFpProver>, v: &Vec<MacFpVerifier>) -> (r: Result<(), Error>)
    ensures
        match r {
            Ok(()) => {
                &&& p@.len() == v@.len()
                &&& forall|i: int|
                    0 <= i < p@.len() ==> fp_ok(#[trigger] p@[i], v@[i]) && p@[i].value.as_int()
                        == 0
            },
            Err(e) => {
                &&& e == Error::CheckZeroFailed
                &&& (p@.len() != v@.len() || exists|i: int|
                    0 <= i < p@.len() && !(fp_ok(#[trigger] p@[i], v@[i]) && p@[i].value.as_int()
                        == 0))
            },
        },
{
    if p.len() != v.len() {
        return Err(Error::CheckZeroFailed);
    }
    let n = p.len();
    let zero = Fp::zero();
    let mut i: usize = 0;
    while i < n
        invariant
            i <= n,
            n == p@.len() == v@.len(),
            zero.as_int() == 0,
            forall|j: int|
                0 <= j < i ==> fp_ok(#[trigger] p@[j], v@[j]) && p@[j].value.as_int() == 0,
        decreases n - i,
    {
        proof {
            Fp::lemma_eq_int(p@[i as int].value, v@[i as int].value);
        }
        if !p[i].value.equals(v[i].value) || !p[i].value.equals(zero) {
            return Err(Error::CheckZeroFailed);
        }
        i = i + 1;
    }
    Ok(())
}

/// Batched multiplication check over the binary field: accepts exactly when
/// every triple agrees with its committed record and the committed product
/// relation holds.
pub fn quicksilver_check_multiply(tp: &Vec<TripleProver>, tv: &Vec<TripleVerifier>) -> (r: Result<
    (),
    Error,
>)
    ensures
        match r {
            Ok(()) => {
                &&& tp@.len() == tv@.len()
                &&& forall|i: int| 0 <= i < tp@.len() ==> triple_ok(#[trigger] tp@[i], tv@[i])
                &&& forall|i: int| 0 <= i < tp@.len() ==> triple_mul(#[trigger] tv@[i])
            },
            Err(e) => {
                &&& e == Error::MultiplyCheckFailed
                &&& (tp@.len() != tv@.len() || exists|i: int|
                    0 <= i < tp@.len() && !(triple_ok(#[trigger] tp@[i], tv@[i]) && triple_mul(
                        tv@[i],
                    )))
            },
        },
{
    if tp.len() != tv.len() {
        return Err(Error::MultiplyCheckFailed);
    }
    let n = tp.len();
    let mut i: usize = 0;
    while i < n
        invariant
            i <= n,
            n == tp@.len() == tv@.len(),
            forall|j: int| 0 <= j < i ==> triple_ok(#[trigger] tp@[j], tv@[j]),
            forall|j: int| 0 <= j < i ==> triple_mul(#[trigger] tv@[j]),
        decreases n - i,
    {
        let (pa, pb, pc) = tp[i];
        let (va, vb, vc) = tv[i];
        let consistent = pa.bit == va.bit && pb.bit == vb.bit && pc.bit == vc.bit;
        let relation = vc.bit == (va.bit && vb.bit);
        if !(consistent && relation) {
            return Err(Error::MultiplyCheckFailed);
        }
        proof {
            assert((pa, pb, pc) == tp@[i as int]);
            assert((va, vb, vc) == tv@[i as int]);
            assert(triple_ok(tp@[i as int], tv@[i as int]));
            assert(triple_mul(tv@[i as int]));
        }
        i = i + 1;
    }
    Ok(())
}

/// Batched multiplication check over the prime field: accepts exactly when
/// every triple agrees with its committed record and the committed product
/// relation holds.
pub fn quicksilver_check_multiply_fp(tp: &Vec<FpTripleProver>, tv: &Vec<FpTripleVerifier>) -> (r:
    Result<(), Error>)
    ensures
        match r {
            Ok(()) => {
                &&& tp@.len() == tv@.len()
                &&& forall|i: int| 0 <= i < tp@.len() ==> fp_triple_ok(#[trigger] tp@[i], tv@[i])
                &&& forall|i: int| 0 <= i < tp@.len() ==> fp_triple_mul(#[trigger] tv@[i])
            },
            Err(e) => {
                &&& e == Error::MultiplyCheckFailed
                &&& (tp@.len() != tv@.len() || exists|i: int|
                    0 <= i < tp@.len() && !(fp_triple_ok(#[trigger] tp@[i], tv@[i])
                        && fp_triple_mul(tv@[i])))
            },
        },
{
    if tp.len() != tv.len() {
        return Err(Error::MultiplyCheckFailed);
    }
    let n = tp.len();
    let mut i: usize = 0;
    while i < n
        invariant
            i <= n,
            n == tp@.len() == tv@.len(),
            forall|j: int| 0 <= j < i ==> fp_triple_ok(#[trigger] tp@[j], tv@[j]),
            forall|j: int| 0 <= j < i ==> fp_triple_mul(#[trigger] tv@[j]),
        decreases n - i,
    {
        let (pa, pb, pc) = tp[i];
        let (va, vb, vc) = tv[i];
        let consistent = pa.value.equals(va.value) && pb.value.equals(vb.value) && pc.value.equals(
            vc.value,
        );
        let prod = va.value.mul(vb.value);
        let relation = vc.value.equals(prod);
        proof {
            Fp::lemma_eq_int(pa.value, va.value);
            Fp::lemma_eq_int(pb.value, vb.value);
            Fp::lemma_eq_int(pc.value, vc.value);
        }
        if !(consistent && relation) {
            return Err(Error::MultiplyCheckFailed);
        }
        proof {
            assert((pa, pb, pc) == tp@[i as int]);
            assert((va, vb, vc) == tv@[i as int]);
        }
        i = i + 1;
    }
    Ok(())
}

/// Batched multiplication check over the binary field that consumes one
/// pre-certified randomizer triple per checked triple: accepts exactly when
/// the counts line up, every checked triple agrees with its record and
/// multiplies correctly, and every consumed randomizer does too.
pub fn wolverine_check_multiply(
    tp: &Vec<TripleProver>,
    tv: &Vec<TripleVerifier>,
    rand_p: &Vec<TripleProver>,
    rand_v: &Vec<TripleVerifier>,
) -> (r: Result<(), Error>)
    ensures
        match r {
            Ok(()) => {
                &&& tp@.len() == tv@.len()
                &&& rand_p@.len() == rand_v@.len()
                &&& tp@.len() <= rand_p@.len()
                &&& forall|i: int| 0 <= i < tp@.len() ==> triple_ok(#[trigger] tp@[i], tv@[i])
                &&& forall|i: int| 0 <= i < tp@.len() ==> triple_mul(#[trigger] tv@[i])
                &&& forall|i: int|
                    0 <= i < tp@.len() ==> triple_ok(#[trigger] rand_p@[i], rand_v@[i])
                &&& forall|i: int| 0 <= i < tp@.len() ==> triple_mul(#[trigger] rand_v@[i])
            },
            Err(e) => {
                ||| (e == Error::IncompatibleVectors && (tp@.len() != tv@.len() || rand_p@.len()
                    != rand_v@.len() || rand_p@.len() < tp@.len()))
                ||| (e == Error::MultiplyCheckFailed && exists|i: int|
                    0 <= i < tp@.len() && !(triple_ok(#[trigger] tp@[i], tv@[i]) && triple_mul(
                        tv@[i],
                    ) && triple_ok(rand_p@[i], rand_v@[i]) && triple_mul(rand_v@[i])))
            },
        },
{
    if tp.len() != tv.len() || rand_p.len() != rand_v.len() || rand_p.len() < tp.len() {
        return Err(Error::IncompatibleVectors);
    }
    let n = tp.len();
    let mut i: usize = 0;
    while i < n
        invariant
            i <= n,
            n == tp@.len() == tv@.len(),
            n <= rand_p@.len(),
            rand_p@.len() == rand_v@.len(),
            forall|j: int| 0 <= j < i ==> triple_ok(#[trigger] tp@[j], tv@[j]),
            forall|j: int| 0 <= j < i ==> triple_mul(#[trigger] tv@[j]),
            forall|j: int| 0 <= j < i ==> triple_ok(#[trigger] rand_p@[j], rand_v@[j]),
            forall|j: int| 0 <= j < i ==> triple_mul(#[trigger] rand_v@[j]),
        decreases n - i,
    {
        let (pa, pb, pc) = tp[i];
        let (va, vb, vc) = tv[i];
        let ok_triple = pa.bit == va.bit && pb.bit == vb.bit && pc.bit == vc.bit && vc.bit == (
        va.bit && vb.bit);
        let (qa, qb, qc) = rand_p[i];
        let (wa, wb, wc) = rand_v[i];
        let ok_rand = qa.bit == wa.bit && qb.bit == wb.bit && qc.bit == wc.bit && wc.bit == (
        wa.bit && wb.bit);
        if !(ok_triple && ok_rand) {
            return Err(Error::MultiplyCheckFailed);
        }
        proof {
            assert((pa, pb, pc) == tp@[i as int]);
            assert((va, vb, vc) == tv@[i as int]);
            assert((qa, qb, qc) == rand_p@[i as int]);
            assert((wa, wb, wc) == rand_v@[i as int]);
        }
        i = i + 1;
    }
    Ok(())
}

} // verus!
