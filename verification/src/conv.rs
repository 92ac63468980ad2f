//! The top-level conversion check: random edabit generation, cut-and-choose
//! opening, and the bucketed combine that proves every committed value equal
//! to its committed bit decomposition.

use rand::rngs::StdRng;
use vstd::prelude::*;
use vstd::arithmetic::power2::pow2;
use crate::Error;
use crate::adder::{
    bit_add_carry, bits_aligned, convert_bit_2_field, edabits_bits_aligned, triples_certified,
    uniform_width_prover, uniform_width_verifier,
};
use crate::field::{
    bit_int, convert_bits_to_field, fold_bits_int, Fp, P,
};
use crate::mac::{
    add_fp_prover, add_fp_verifier, affine_add_cst_prover, affine_add_cst_verifier,
    affine_mult_cst_prover, affine_mult_cst_verifier, bit_ok, bits_of_prover, check_zero_fp,
    convert_bits_to_field_mac, dabit_consistent, dabit_ok, edabit_consistent, edabit_ok, fp_ok,
    input_bit, input_fp, open_bits, open_fp, random_bit_mac, triple_mul, triple_ok, DabitProver,
    DabitVerifier, EdabitsProver, EdabitsVerifier, MacBitProver, MacBitVerifier, MacFpProver,
    MacFpVerifier, TripleProver, TripleVerifier,
};

verus! {

/// Deep copy of a prover-side edabit.
pub fn copy_edabits_prover(edabits: &EdabitsProver) -> (r: EdabitsProver)
    ensures
        r.bits@ == edabits.bits@,
        r.value == edabits.value,
{
    let num_bits = edabits.bits.len();
    let mut bits_par: Vec<MacBitProver> = Vec::new();
    let mut j: usize = 0;
    while j < num_bits
        invariant
            j <= num_bits,
            num_bits == edabits.bits@.len(),
            bits_par@ =~= edabits.bits@.take(j as int),
        decreases num_bits - j,
    {
        bits_par.push(edabits.bits[j]);
        j = j + 1;
    }
    proof {
        assert(edabits.bits@.take(num_bits as int) =~= edabits.bits@);
    }
    EdabitsProver { bits: bits_par, value: edabits.value }
}

/// Deep copy of a verifier-side edabit.
pub fn copy_edabits_verifier(edabits: &EdabitsVerifier) -> (r: EdabitsVerifier)
    ensures
        r.bits@ == edabits.bits@,
        r.value == edabits.value,
{
    let num_bits = edabits.bits.len();
    let mut bits_par: Vec<MacBitVerifier> = Vec::new();
    let mut j: usize = 0;
    while j < num_bits
        invariant
            j <= num_bits,
            num_bits == edabits.bits@.len(),
            bits_par@ =~= edabits.bits@.take(j as int),
        decreases num_bits - j,
    {
        bits_par.push(edabits.bits[j]);
        j = j + 1;
    }
    proof {
        assert(edabits.bits@.take(num_bits as int) =~= edabits.bits@);
    }
    EdabitsVerifier { bits: bits_par, value: edabits.value }
}

/// Draws a batch of fresh random edabits: uniform authenticated bits whose
/// fold the prover commits as the field value.
pub fn random_edabits(rng: &mut StdRng, nb_bits: usize, num: usize) -> (r: (
    Vec<EdabitsProver>,
    Vec<EdabitsVerifier>,
))
    ensures
        r.0@.len() == num,
        r.1@.len() == num,
        forall|k: int| 0 <= k < num ==> (#[trigger] r.0@[k]).bits@.len() == nb_bits,
        forall|k: int| 0 <= k < num ==> (#[trigger] r.1@[k]).bits@.len() == nb_bits,
        forall|k: int| 0 <= k < num ==> edabit_ok(#[trigger] r.0@[k], r.1@[k]),
        forall|k: int| 0 <= k < num ==> edabit_consistent(#[trigger] r.0@[k]),
{
    let mut edabits_p: Vec<EdabitsProver> = Vec::new();
    let mut edabits_v: Vec<EdabitsVerifier> = Vec::new();
    let mut k: usize = 0;
    while k < num
        invariant
            k <= num,
            edabits_p@.len() == k,
            edabits_v@.len() == k,
            forall|a: int| 0 <= a < k ==> (#[trigger] edabits_p@[a]).bits@.len() == nb_bits,
            forall|a: int| 0 <= a < k ==> (#[trigger] edabits_v@[a]).bits@.len() == nb_bits,
            forall|a: int| 0 <= a < k ==> edabit_ok(#[trigger] edabits_p@[a], edabits_v@[a]),
            forall|a: int| 0 <= a < k ==> edabit_consistent(#[trigger] edabits_p@[a]),
        decreases num - k,
    {
        let mut bits_p: Vec<MacBitProver> = Vec::new();
        let mut bits_v: Vec<MacBitVerifier> = Vec::new();
        let mut i: usize = 0;
        while i < nb_bits
            invariant
                i <= nb_bits,
                bits_p@.len() == i,
                bits_v@.len() == i,
                forall|b: int| 0 <= b < i ==> bit_ok(#[trigger] bits_p@[b], bits_v@[b]),
            decreases nb_bits - i,
        {
            let (b_p, b_v) = random_bit_mac(rng);
            bits_p.push(b_p);
            bits_v.push(b_v);
            i = i + 1;
        }
        let r_m = convert_bits_to_field_mac(bits_p.as_slice());
        let (v_p, v_v) = input_fp(r_m);
        edabits_p.push(EdabitsProver { bits: bits_p, value: v_p });
        edabits_v.push(EdabitsVerifier { bits: bits_v, value: v_v });
        k = k + 1;
    }
    (edabits_p, edabits_v)
}

/// Draws fresh multiplication triples over the binary field and appends them:
/// two uniform authenticated bits and the committed product the prover
/// inputs.  The triples are not yet certified; certification happens by
/// cut-and-choose or by consumption in the randomizer-consuming check.
pub fn random_triples(
    rng: &mut StdRng,
    num: usize,
    out_p: &mut Vec<TripleProver>,
    out_v: &mut Vec<TripleVerifier>,
)
    requires
        old(out_p)@.len() == old(out_v)@.len(),
    ensures
        final(out_p)@.len() == old(out_p)@.len() + num,
        final(out_v)@.len() == old(out_v)@.len() + num,
        forall|j: int| 0 <= j < old(out_p)@.len() ==> (#[trigger] final(out_p)@[j]) == old(
            out_p,
        )@[j],
        forall|j: int| 0 <= j < old(out_v)@.len() ==> (#[trigger] final(out_v)@[j]) == old(
            out_v,
        )@[j],
        forall|j: int|
            old(out_p)@.len() <= j < final(out_p)@.len() ==> triple_ok(
                #[trigger] final(out_p)@[j],
                final(out_v)@[j],
            ),
        forall|j: int|
            old(out_v)@.len() <= j < final(out_v)@.len() ==> triple_mul(
                #[trigger] final(out_v)@[j],
            ),
{
    let base_p = out_p.len();
    let base_v = out_v.len();
    let mut i: usize = 0;
    while i < num
        invariant
            i <= num,
            base_p == base_v,
            base_p == old(out_p)@.len(),
            base_v == old(out_v)@.len(),
            out_p@.len() == base_p + i,
            out_v@.len() == base_v + i,
            forall|j: int| 0 <= j < base_p ==> (#[trigger] out_p@[j]) == old(out_p)@[j],
            forall|j: int| 0 <= j < base_v ==> (#[trigger] out_v@[j]) == old(out_v)@[j],
            forall|j: int|
                base_p <= j < out_p@.len() ==> triple_ok(#[trigger] out_p@[j], out_v@[j]),
            forall|j: int| base_v <= j < out_v@.len() ==> triple_mul(#[trigger] out_v@[j]),
        decreases num - i,
    {
        let (x_p, x_v) = random_bit_mac(rng);
        let (y_p, y_v) = random_bit_mac(rng);
        let z = x_p.bit && y_p.bit;
        let (z_p, z_v) = input_bit(z);
        out_p.push((x_p, y_p, z_p));
        out_v.push((x_v, y_v, z_v));
        proof {
            assert(triple_ok(out_p@[out_p@.len() - 1], out_v@[out_v@.len() - 1]));
            assert(triple_mul(out_v@[out_v@.len() - 1]));
        }
        i = i + 1;
    }
}

/// Every edabit of a batch agrees with its committed record.
pub open spec fn edabits_aligned(p: Seq<EdabitsProver>, v: Seq<EdabitsVerifier>) -> bool {
    &&& p.len() == v.len()
    &&& forall|i: int| 0 <= i < p.len() ==> edabit_ok(#[trigger] p[i], v[i])
}

/// Every edabit of a batch folds its bits to its field value.
pub open spec fn edabits_all_consistent(p: Seq<EdabitsProver>) -> bool {
    forall|i: int| 0 <= i < p.len() ==> edabit_consistent(#[trigger] p[i])
}

/// An honest edabit batch: every edabit agrees with its committed record and
/// its field value is the fold of its bits.
pub open spec fn edabits_honest(p: Seq<EdabitsProver>, v: Seq<EdabitsVerifier>) -> bool {
    edabits_aligned(p, v) && edabits_all_consistent(p)
}

/// The cancellation at the heart of the bucket check: in the prime field,
/// the committed sum minus the carry scaled by `2^m` minus the fold of the
/// opened low bits reduces to the gap between the committed field value and
/// the fold of the committed bits, so the difference is zero exactly when the
/// edabit is consistent.
proof fn lemma_conv_diff(xv: int, x_int: int, r_int: int, z_int: int, c: int, m: nat)
    requires
        0 <= xv < P as int,
        0 <= x_int,
        0 <= r_int,
        0 <= z_int,
        0 <= c <= 1,
        z_int + pow2(m) * c == x_int + r_int,
    ensures
        ({
            let p = P as int;
            let p2 = pow2(m) as int % p;
            let cp = (xv + r_int % p) % p;
            let negc = (p - p2) % p;
            let term = (negc * c) % p;
            let ep = (cp + term) % p;
            let sm = z_int % p;
            let nsm = (p - sm) % p;
            ((nsm + ep) % p == 0 <==> xv == x_int % p)
        }),
{
    let p = P as int;
    let pw = pow2(m) as int;
    let p2 = pw % p;
    let cp = (xv + r_int % p) % p;
    let negc = (p - p2) % p;
    let term = (negc * c) % p;
    let ep = (cp + term) % p;
    let sm = z_int % p;
    let nsm = (p - sm) % p;
    vstd::arithmetic::power2::lemma_pow2_pos(m);
    vstd::arithmetic::div_mod::lemma_mod_bound(pw, p);
    vstd::arithmetic::div_mod::lemma_mod_bound(z_int, p);
    vstd::arithmetic::div_mod::lemma_mod_bound(x_int, p);
    // cp == (xv + r_int) % p
    vstd::arithmetic::div_mod::lemma_small_mod(xv as nat, P as nat);
    vstd::arithmetic::div_mod::lemma_mod_twice(r_int, p);
    vstd::arithmetic::div_mod::lemma_add_mod_noop(xv, r_int, p);
    assert(cp == (xv + r_int) % p);
    // ep == (xv + z_int - x_int) % p: the randomness and the carry cancel
    if c == 0 {
        assert(term == 0) by {
            vstd::arithmetic::div_mod::lemma_small_mod(0nat, P as nat);
        }
        vstd::arithmetic::div_mod::lemma_mod_twice(xv + r_int, p);
        assert(ep == (xv + r_int) % p);
        assert(xv + r_int == xv + z_int - x_int);
    } else {
        assert(term == negc) by {
            vstd::arithmetic::div_mod::lemma_mod_twice(p - p2, p);
        }
        vstd::arithmetic::div_mod::lemma_mod_twice(p - p2, p);
        vstd::arithmetic::div_mod::lemma_add_mod_noop(xv + r_int, p - p2, p);
        assert(ep == (xv + r_int + (p - p2)) % p);
        assert(pw == p * (pw / p) + p2) by {
            vstd::arithmetic::div_mod::lemma_fundamental_div_mod(pw, p);
        }
        assert(xv + r_int + (p - p2) == (xv + z_int - x_int) + p * (1 + pw / p));
        assert((p * (1 + pw / p) + (xv + z_int - x_int)) % p == (xv + z_int - x_int) % p) by {
            vstd::arithmetic::div_mod::lemma_mod_multiples_vanish(
                1 + pw / p,
                xv + z_int - x_int,
                p,
            );
        }
    }
    assert(ep == (xv + z_int - x_int) % p);
    // the negated fold cancels the remaining z term
    vstd::arithmetic::div_mod::lemma_mod_twice(p - sm, p);
    vstd::arithmetic::div_mod::lemma_add_mod_noop(p - sm, xv + z_int - x_int, p);
    assert((nsm + ep) % p == ((p - sm) + (xv + z_int - x_int)) % p);
    assert(z_int == p * (z_int / p) + sm) by {
        vstd::arithmetic::div_mod::lemma_fundamental_div_mod(z_int, p);
    }
    assert((p - sm) + (xv + z_int - x_int) == (xv - x_int) + p * (1 + z_int / p));
    assert((nsm + ep) % p == (xv - x_int) % p) by {
        vstd::arithmetic::div_mod::lemma_mod_multiples_vanish(1 + z_int / p, xv - x_int, p);
    }
    // the gap is smaller than the modulus, so it is zero exactly on equality
    vstd::arithmetic::div_mod::lemma_sub_mod_noop(xv, x_int, p);
    assert((xv - x_int) % p == (xv - x_int % p) % p);
    let d = xv - x_int % p;
    if d == 0 {
        vstd::arithmetic::div_mod::lemma_small_mod(0nat, P as nat);
    } else if d > 0 {
        vstd::arithmetic::div_mod::lemma_small_mod(d as nat, P as nat);
    } else {
        assert(d % p == (p + d) % p) by {
            vstd::arithmetic::div_mod::lemma_mod_multiples_vanish(1, d, p);
        }
        vstd::arithmetic::div_mod::lemma_small_mod((p + d) as nat, P as nat);
    }
}

/// One bucket of the conversion check: add the caller's edabits to a fresh
/// window of random edabits, convert the carry into the prime field through a
/// dabit, open the low sum bits, and prove that the committed sum minus the
/// scaled carry minus the opened fold is zero.  On honest inputs — every half
/// agreeing with its committed record, edabits folding to their values,
/// dabits consistent, and certified randomizer triples where the
/// randomizer-consuming check is used — the bucket accepts.
#[verifier::loop_isolation(false)]
pub fn conv_loop(
    edabits_vector_p: &Vec<EdabitsProver>,
    edabits_vector_v: &Vec<EdabitsVerifier>,
    r_p: &Vec<EdabitsProver>,
    r_v: &Vec<EdabitsVerifier>,
    dabits_p: &Vec<DabitProver>,
    dabits_v: &Vec<DabitVerifier>,
    random_triples_p: &Vec<TripleProver>,
    random_triples_v: &Vec<TripleVerifier>,
) -> (res: Result<(), Error>)
    requires
        edabits_vector_p@.len() >= 1,
        edabits_vector_v@.len() == edabits_vector_p@.len(),
        r_p@.len() == edabits_vector_p@.len(),
        r_v@.len() == edabits_vector_p@.len(),
        dabits_p@.len() == edabits_vector_p@.len(),
        dabits_v@.len() == edabits_vector_p@.len(),
        uniform_width_prover(edabits_vector_p@, edabits_vector_p@[0].bits@.len() as int),
        uniform_width_verifier(edabits_vector_v@, edabits_vector_p@[0].bits@.len() as int),
        uniform_width_prover(r_p@, edabits_vector_p@[0].bits@.len() as int),
        uniform_width_verifier(r_v@, edabits_vector_p@[0].bits@.len() as int),
    ensures
        (edabits_aligned(edabits_vector_p@, edabits_vector_v@) && edabits_honest(r_p@, r_v@)
            && crate::fdabit::dabits_honest(dabits_p@, dabits_v@) && (random_triples_p@.len() == 0
            || (triples_certified(random_triples_p@, random_triples_v@)
            && random_triples_p@.len() >= edabits_vector_p@.len()
            * edabits_vector_p@[0].bits@.len()))) ==> (res is Ok <==> edabits_all_consistent(
            edabits_vector_p@,
        )),
        res != Err::<(), Error>(Error::InvalidParameters),
        res != Err::<(), Error>(Error::WrongOpenRandomEdabit),
{
    let n = edabits_vector_p.len();
    let nb_bits = edabits_vector_p[0].bits.len();
    let ghost aligned = edabits_aligned(edabits_vector_p@, edabits_vector_v@) && edabits_honest(
        r_p@,
        r_v@,
    ) && crate::fdabit::dabits_honest(dabits_p@, dabits_v@) && (random_triples_p@.len() == 0 || (
    triples_certified(random_triples_p@, random_triples_v@) && random_triples_p@.len() >= n
        * nb_bits));
    let power_two_nb_bits = crate::field::power_two(nb_bits);
    let neg_power_two = power_two_nb_bits.neg();

    // step 6)b) the batched addition
    let (e_batch_p, e_batch_v) = match bit_add_carry(
        edabits_vector_p,
        edabits_vector_v,
        r_p,
        r_v,
        random_triples_p,
        random_triples_v,
    ) {
        Ok(out) => out,
        Err(e) => {
            proof {
                if aligned {
                    assert(edabits_bits_aligned(edabits_vector_p@, edabits_vector_v@));
                    assert(edabits_bits_aligned(r_p@, r_v@));
                }
            }
            return Err(e);
        },
    };

    // step 6)c) batched carry conversion through the dabits
    let mut e_carry_p: Vec<MacBitProver> = Vec::new();
    let mut e_carry_v: Vec<MacBitVerifier> = Vec::new();
    let mut i: usize = 0;
    while i < n
        invariant
            i <= n,
            e_carry_p@.len() == i,
            e_carry_v@.len() == i,
            forall|j: int| 0 <= j < i ==> (#[trigger] e_carry_p@[j]) == e_batch_p@[j].1,
            forall|j: int| 0 <= j < i ==> (#[trigger] e_carry_v@[j]) == e_batch_v@[j].1,
        decreases n - i,
    {
        let c_p = e_batch_p[i].1;
        let c_v = e_batch_v[i].1;
        e_carry_p.push(c_p);
        e_carry_v.push(c_v);
        i = i + 1;
    }
    let (e_m_batch_p, e_m_batch_v) = match convert_bit_2_field(
        dabits_p,
        dabits_v,
        &e_carry_p,
        &e_carry_v,
    ) {
        Ok(out) => out,
        Err(e) => {
            proof {
                if aligned {
                    let bad = choose|j: int|
                        0 <= j < dabits_p@.len() && ((#[trigger] dabits_p@[j]).bit.bit
                            != e_carry_p@[j].bit) != (dabits_v@[j].bit.bit != e_carry_v@[j].bit);
                    assert(dabit_ok(dabits_p@[bad], dabits_v@[bad]));
                    assert(bit_ok(e_batch_p@[bad].1, e_batch_v@[bad].1));
                }
            }
            return Err(e);
        },
    };

    // steps 6)a), d) and e): per element, the committed sum minus the scaled
    // carry, minus the fold of the opened sum bits, must be zero
    let mut diff_p: Vec<MacFpProver> = Vec::new();
    let mut diff_v: Vec<MacFpVerifier> = Vec::new();
    let mut i: usize = 0;
    while i < n
        invariant
            i <= n,
            diff_p@.len() == i,
            diff_v@.len() == i,
            aligned ==> forall|j: int| 0 <= j < i ==> fp_ok(#[trigger] diff_p@[j], diff_v@[j]),
            aligned ==> forall|j: int|
                0 <= j < i ==> ((#[trigger] diff_p@[j]).value.as_int() == 0 <==> edabit_consistent(
                    edabits_vector_p@[j],
                )),
        decreases n - i,
    {
        // 6)a)
        let c_m_p = edabits_vector_p[i].value;
        let c_m_v = edabits_vector_v[i].value;
        let r_m_p = r_p[i].value;
        let r_m_v = r_v[i].value;
        let c_plus_r_p = add_fp_prover(c_m_p, r_m_p);
        let c_plus_r_v = add_fp_verifier(c_m_v, r_m_v);

        // 6)c) done earlier
        let e_m_p = e_m_batch_p[i];
        let e_m_v = e_m_batch_v[i];

        // 6)d)
        let e_prime_p = add_fp_prover(c_plus_r_p, affine_mult_cst_prover(neg_power_two, e_m_p));
        let e_prime_v = add_fp_verifier(c_plus_r_v, affine_mult_cst_verifier(neg_power_two, e_m_v));

        // 6)e)
        let opened = match open_bits(&e_batch_p[i].0, &e_batch_v[i].0) {
            Ok(o) => o,
            Err(e) => {
                proof {
                    if aligned {
                        assert(bits_aligned(e_batch_p@[i as int].0@, e_batch_v@[i as int].0@));
                    }
                }
                return Err(e);
            },
        };
        let sum = convert_bits_to_field(opened.as_slice());
        let neg_sum = sum.neg();
        let d_p = affine_add_cst_prover(neg_sum, e_prime_p);
        let d_v = affine_add_cst_verifier(neg_sum, e_prime_v);
        proof {
            if aligned {
                let xb = bits_of_prover(edabits_vector_p@[i as int].bits@);
                let rb = bits_of_prover(r_p@[i as int].bits@);
                let zb = bits_of_prover(e_batch_p@[i as int].0@);
                let xv = c_m_p.value.as_int();
                let x_int = fold_bits_int(xb);
                let r_int = fold_bits_int(rb);
                let z_int = fold_bits_int(zb);
                let cb: int = bit_int(e_batch_p@[i as int].1.bit);
                use_type_invariant(&c_m_p.value);
                crate::field::lemma_fold_bits_bound(xb);
                crate::field::lemma_fold_bits_bound(rb);
                crate::field::lemma_fold_bits_bound(zb);
                assert(opened@ =~= zb);
                assert(edabit_consistent(r_p@[i as int]));
                assert(dabit_consistent(dabits_p@[i as int]));
                assert(e_m_p.value.as_int() == cb);
                lemma_conv_diff(xv, x_int, r_int, z_int, cb, nb_bits as nat);
                assert(d_p.value.as_int() == 0 <==> xv == x_int % (P as int));
                assert(edabit_consistent(edabits_vector_p@[i as int]) <==> xv == x_int % (
                P as int));
                // the verifier's half computes the same integers
                assert(edabit_ok(edabits_vector_p@[i as int], edabits_vector_v@[i as int]));
                assert(edabit_ok(r_p@[i as int], r_v@[i as int]));
                Fp::lemma_eq_int(c_m_p.value, c_m_v.value);
                Fp::lemma_eq_int(r_m_p.value, r_m_v.value);
                assert(dabit_ok(dabits_p@[i as int], dabits_v@[i as int]));
                Fp::lemma_eq_int(dabits_p@[i as int].value.value, dabits_v@[i as int].value.value);
                assert(e_m_v.value.as_int() == e_m_p.value.as_int());
                Fp::lemma_eq_int(d_p.value, d_v.value);
                assert(fp_ok(d_p, d_v));
            }
        }
        diff_p.push(d_p);
        diff_v.push(d_v);
        i = i + 1;
    }

    let result = check_zero_fp(&diff_p, &diff_v);
    proof {
        if aligned {
            match result {
                Ok(()) => {
                    assert forall|j: int|
                        0 <= j < edabits_vector_p@.len() implies edabit_consistent(
                        #[trigger] edabits_vector_p@[j],
                    ) by {
                        assert(fp_ok(diff_p@[j], diff_v@[j]) && diff_p@[j].value.as_int() == 0);
                    }
                },
                Err(_) => {
                    let bad = choose|j: int|
                        0 <= j < diff_p@.len() && !(fp_ok(#[trigger] diff_p@[j], diff_v@[j])
                            && diff_p@[j].value.as_int() == 0);
                    assert(!edabit_consistent(edabits_vector_p@[bad]));
                },
            }
        }
    }
    match result {
        Ok(()) => Ok(()),
        Err(e) => Err(e),
    }
}

/// Cut-and-choose opening of a window of random edabits: each one is opened
/// end to end and must fold to its committed field value.  Accepts exactly
/// when every opened edabit agrees with its committed record and folds to its
/// value.
pub fn check_cut_edabits(
    r_p: &Vec<EdabitsProver>,
    r_v: &Vec<EdabitsVerifier>,
    base: usize,
    num_cut: usize,
) -> (res: Result<(), Error>)
    requires
        r_v@.len() == r_p@.len(),
        base + num_cut <= r_p@.len(),
    ensures
        match res {
            Ok(()) => forall|i: int|
                base <= i < base + num_cut ==> bits_aligned(
                    (#[trigger] r_p@[i]).bits@,
                    r_v@[i].bits@,
                ) && fp_ok(r_p@[i].value, r_v@[i].value) && edabit_consistent(r_p@[i]),
            Err(e) => (e == Error::MacMismatch || e == Error::WrongOpenRandomEdabit) && !(
            forall|i: int|
                base <= i < base + num_cut ==> bits_aligned(
                    (#[trigger] r_p@[i]).bits@,
                    r_v@[i].bits@,
                ) && fp_ok(r_p@[i].value, r_v@[i].value) && edabit_consistent(r_p@[i])),
        },
{
    let total = r_p.len();
    let mut i: usize = 0;
    while i < num_cut
        invariant
            i <= num_cut,
            total == r_p@.len(),
            r_v@.len() == r_p@.len(),
            base + num_cut <= total,
            forall|j: int|
                base <= j < base + i ==> bits_aligned((#[trigger] r_p@[j]).bits@, r_v@[j].bits@)
                    && fp_ok(r_p@[j].value, r_v@[j].value) && edabit_consistent(r_p@[j]),
        decreases num_cut - i,
    {
        let idx = base + i;
        let a_p = &r_p[idx];
        let a_v = &r_v[idx];
        let opened = match open_bits(&a_p.bits, &a_v.bits) {
            Ok(o) => o,
            Err(_) => {
                proof {
                    assert(!bits_aligned(r_p@[idx as int].bits@, r_v@[idx as int].bits@));
                }
                return Err(Error::MacMismatch);
            },
        };
        let mut val_p: Vec<MacFpProver> = Vec::new();
        let mut val_v: Vec<MacFpVerifier> = Vec::new();
        val_p.push(a_p.value);
        val_v.push(a_v.value);
        proof {
            assert(val_p@[0] == r_p@[idx as int].value && val_v@[0] == r_v@[idx as int].value);
        }
        let opened_val = match open_fp(&val_p, &val_v) {
            Ok(o) => o,
            Err(_) => {
                proof {
                    assert(!fp_ok(val_p@[0], val_v@[0]));
                    assert(!fp_ok(r_p@[idx as int].value, r_v@[idx as int].value));
                }
                return Err(Error::MacMismatch);
            },
        };
        let folded = convert_bits_to_field(opened.as_slice());
        proof {
            assert(opened@ =~= bits_of_prover(r_p@[idx as int].bits@));
            assert(fp_ok(val_p@[0], val_v@[0]));
            assert(opened_val@[0] == val_p@[0].value);
            assert(opened_val@[0] == r_p@[idx as int].value.value);
            assert(fp_ok(r_p@[idx as int].value, r_v@[idx as int].value));
        }
        if !folded.equals(opened_val[0]) {
            proof {
                assert(!edabit_consistent(r_p@[idx as int]));
            }
            return Err(Error::WrongOpenRandomEdabit);
        }
        proof {
            assert(bits_aligned(r_p@[idx as int].bits@, r_v@[idx as int].bits@));
            assert(edabit_consistent(r_p@[idx as int]));
        }
        i = i + 1;
    }
    Ok(())
}

/// Cut-and-choose opening of a window of random multiplication triples: the
/// two factors are opened and the committed product minus their product is
/// checked to be zero.  Accepts exactly when every opened triple agrees with
/// its committed record and multiplies correctly.
pub fn check_cut_triples(
    rt_p: &Vec<TripleProver>,
    rt_v: &Vec<TripleVerifier>,
    base: usize,
    count: usize,
) -> (res: Result<(), Error>)
    requires
        rt_v@.len() == rt_p@.len(),
        base + count <= rt_p@.len(),
    ensures
        match res {
            Ok(()) => forall|i: int|
                base <= i < base + count ==> triple_ok(#[trigger] rt_p@[i], rt_v@[i]) && triple_mul(
                    rt_v@[i],
                ),
            Err(e) => (e == Error::MacMismatch || e == Error::CheckZeroFailed) && !(forall|i: int|
                base <= i < base + count ==> triple_ok(#[trigger] rt_p@[i], rt_v@[i]) && triple_mul(
                    rt_v@[i],
                )),
        },
{
    let total = rt_p.len();
    let mut i: usize = 0;
    while i < count
        invariant
            i <= count,
            total == rt_p@.len(),
            rt_v@.len() == rt_p@.len(),
            base + count <= total,
            forall|j: int|
                base <= j < base + i ==> triple_ok(#[trigger] rt_p@[j], rt_v@[j]) && triple_mul(
                    rt_v@[j],
                ),
        decreases count - i,
    {
        let idx = base + i;
        let (x_p, y_p, z_p) = rt_p[idx];
        let (x_v, y_v, z_v) = rt_v[idx];
        let mut xy_p: Vec<MacBitProver> = Vec::new();
        let mut xy_v: Vec<MacBitVerifier> = Vec::new();
        xy_p.push(x_p);
        xy_p.push(y_p);
        xy_v.push(x_v);
        xy_v.push(y_v);
        proof {
            assert(xy_p@.len() == 2 && xy_v@.len() == 2);
            assert(xy_p@[0] == x_p && xy_p@[1] == y_p);
            assert(xy_v@[0] == x_v && xy_v@[1] == y_v);
        }
        let opened = match open_bits(&xy_p, &xy_v) {
            Ok(o) => o,
            Err(_) => {
                proof {
                    let bad = choose|b: int|
                        0 <= b < xy_p@.len() && !bit_ok(#[trigger] xy_p@[b], xy_v@[b]);
                    assert(bad == 0 || bad == 1);
                    assert((x_p, y_p, z_p) == rt_p@[idx as int]);
                    assert((x_v, y_v, z_v) == rt_v@[idx as int]);
                    assert(!triple_ok(rt_p@[idx as int], rt_v@[idx as int]));
                }
                return Err(Error::MacMismatch);
            },
        };
        proof {
            assert(bit_ok(xy_p@[0], xy_v@[0]) && bit_ok(xy_p@[1], xy_v@[1]));
            assert(opened@[0] == x_p.bit && opened@[1] == y_p.bit);
        }
        let prod = opened[0] && opened[1];
        let v_p = crate::mac::add_cst_bit_prover(prod, z_p);
        let v_v = crate::mac::add_cst_bit_verifier(prod, z_v);
        let mut chk_p: Vec<MacBitProver> = Vec::new();
        let mut chk_v: Vec<MacBitVerifier> = Vec::new();
        chk_p.push(v_p);
        chk_v.push(v_v);
        proof {
            assert(chk_p@.len() == 1 && chk_v@.len() == 1);
            assert(chk_p@[0] == v_p && chk_v@[0] == v_v);
        }
        match crate::mac::check_zero_bits(&chk_p, &chk_v) {
            Ok(()) => {},
            Err(_) => {
                proof {
                    let bad = choose|b: int|
                        0 <= b < chk_p@.len() && !(bit_ok(#[trigger] chk_p@[b], chk_v@[b])
                            && !chk_p@[b].bit);
                    assert(bad == 0);
                    assert(!(bit_ok(v_p, v_v) && !v_p.bit));
                    assert((x_p, y_p, z_p) == rt_p@[idx as int]);
                    assert((x_v, y_v, z_v) == rt_v@[idx as int]);
                    assert(!(triple_ok(rt_p@[idx as int], rt_v@[idx as int]) && triple_mul(
                        rt_v@[idx as int],
                    )));
                }
                return Err(Error::CheckZeroFailed);
            },
        }
        proof {
            assert(bit_ok(chk_p@[0], chk_v@[0]) && !chk_p@[0].bit);
            assert((x_p, y_p, z_p) == rt_p@[idx as int]);
            assert((x_v, y_v, z_v) == rt_v@[idx as int]);
            assert(triple_ok(rt_p@[idx as int], rt_v@[idx as int]));
            assert(triple_mul(rt_v@[idx as int]));
        }
        i = i + 1;
    }
    Ok(())
}

/// Copies a window of a prover-side edabit pool.
fn sub_edabits_prover(v: &Vec<EdabitsProver>, start: usize, len: usize) -> (r: Vec<EdabitsProver>)
    requires
        start + len <= v@.len(),
    ensures
        r@.len() == len,
        forall|j: int|
            0 <= j < len ==> (#[trigger] r@[j]).bits@ == v@[start + j].bits@ && r@[j].value
                == v@[start + j].value,
{
    let total = v.len();
    let mut out: Vec<EdabitsProver> = Vec::new();
    let mut j: usize = 0;
    while j < len
        invariant
            j <= len,
            total == v@.len(),
            start + len <= total,
            out@.len() == j,
            forall|a: int|
                0 <= a < j ==> (#[trigger] out@[a]).bits@ == v@[start + a].bits@ && out@[a].value
                    == v@[start + a].value,
        decreases len - j,
    {
        out.push(copy_edabits_prover(&v[start + j]));
        j = j + 1;
    }
    out
}

/// Copies a window of a verifier-side edabit pool.
fn sub_edabits_verifier(v: &Vec<EdabitsVerifier>, start: usize, len: usize) -> (r: Vec<
    EdabitsVerifier,
>)
    requires
        start + len <= v@.len(),
    ensures
        r@.len() == len,
        forall|j: int|
            0 <= j < len ==> (#[trigger] r@[j]).bits@ == v@[start + j].bits@ && r@[j].value
                == v@[start + j].value,
{
    let total = v.len();
    let mut out: Vec<EdabitsVerifier> = Vec::new();
    let mut j: usize = 0;
    while j < len
        invariant
            j <= len,
            total == v@.len(),
            start + len <= total,
            out@.len() == j,
            forall|a: int|
                0 <= a < j ==> (#[trigger] out@[a]).bits@ == v@[start + a].bits@ && out@[a].value
                    == v@[start + a].value,
        decreases len - j,
    {
        out.push(copy_edabits_verifier(&v[start + j]));
        j = j + 1;
    }
    out
}

/// Copies a window of a prover-side dabit pool.
fn sub_dabits_prover(v: &Vec<DabitProver>, start: usize, len: usize) -> (r: Vec<DabitProver>)
    requires
        start + len <= v@.len(),
    ensures
        r@ == v@.subrange(start as int, start + len),
{
    let total = v.len();
    let mut out: Vec<DabitProver> = Vec::new();
    let mut j: usize = 0;
    while j < len
        invariant
            j <= len,
            total == v@.len(),
            start + len <= total,
            out@ =~= v@.subrange(start as int, start + j),
        decreases len - j,
    {
        out.push(v[start + j]);
        proof {
            assert(out@ =~= v@.subrange(start as int, start + j + 1));
        }
        j = j + 1;
    }
    out
}

/// Copies a window of a verifier-side dabit pool.
fn sub_dabits_verifier(v: &Vec<DabitVerifier>, start: usize, len: usize) -> (r: Vec<DabitVerifier>)
    requires
        start + len <= v@.len(),
    ensures
        r@ == v@.subrange(start as int, start + len),
{
    let total = v.len();
    let mut out: Vec<DabitVerifier> = Vec::new();
    let mut j: usize = 0;
    while j < len
        invariant
            j <= len,
            total == v@.len(),
            start + len <= total,
            out@ =~= v@.subrange(start as int, start + j),
        decreases len - j,
    {
        out.push(v[start + j]);
        proof {
            assert(out@ =~= v@.subrange(start as int, start + j + 1));
        }
        j = j + 1;
    }
    out
}

/// Copies a window of a prover-side triple pool.
fn sub_triples_prover(v: &Vec<TripleProver>, start: usize, len: usize) -> (r: Vec<TripleProver>)
    requires
        start + len <= v@.len(),
    ensures
        r@ == v@.subrange(start as int, start + len),
{
    let total = v.len();
    let mut out: Vec<TripleProver> = Vec::new();
    let mut j: usize = 0;
    while j < len
        invariant
            j <= len,
            total == v@.len(),
            start + len <= total,
            out@ =~= v@.subrange(start as int, start + j),
        decreases len - j,
    {
        out.push(v[start + j]);
        proof {
            assert(out@ =~= v@.subrange(start as int, start + j + 1));
        }
        j = j + 1;
    }
    out
}

/// Copies a window of a verifier-side triple pool.
fn sub_triples_verifier(v: &Vec<TripleVerifier>, start: usize, len: usize) -> (r: Vec<
    TripleVerifier,
>)
    requires
        start + len <= v@.len(),
    ensures
        r@ == v@.subrange(start as int, start + len),
{
    let total = v.len();
    let mut out: Vec<TripleVerifier> = Vec::new();
    let mut j: usize = 0;
    while j < len
        invariant
            j <= len,
            total == v@.len(),
            start + len <= total,
            out@ =~= v@.subrange(start as int, start + j),
        decreases len - j,
    {
        out.push(v[start + j]);
        proof {
            assert(out@ =~= v@.subrange(start as int, start + j + 1));
        }
        j = j + 1;
    }
    out
}

/// The conversion check: generates `n * B + C` random edabits, `n * B`
/// dabits and, without the self-contained multiplication check, the
/// randomizer triples; certifies the dabits; shuffles all pools under one
/// jointly seeded permutation stream; opens a cut of the random edabits (and
/// triples) end to end; and runs one bucket combine per window against the
/// caller's edabits.  On an honest caller batch, with a batch size whose
/// derived padding passes the parameter check, the conversion accepts.
#[verifier::loop_isolation(false)]
pub fn conv(
    rng: &mut StdRng,
    num_bucket: usize,
    num_cut: usize,
    edabits_vector_p: &Vec<EdabitsProver>,
    edabits_vector_v: &Vec<EdabitsVerifier>,
    with_quicksilver: bool,
) -> (res: Result<(), Error>)
    requires
        edabits_vector_p@.len() >= 1,
        edabits_vector_v@.len() == edabits_vector_p@.len(),
        uniform_width_prover(edabits_vector_p@, edabits_vector_p@[0].bits@.len() as int),
        uniform_width_verifier(edabits_vector_v@, edabits_vector_p@[0].bits@.len() as int),
        edabits_vector_p@.len() * num_bucket + num_cut < usize::MAX,
        (edabits_vector_p@.len() * num_bucket + num_cut) * edabits_vector_p@[0].bits@.len()
            < usize::MAX,
    ensures
        (edabits_honest(edabits_vector_p@, edabits_vector_v@) && crate::params::params_ok(
            (edabits_vector_p@.len() * num_bucket) as nat,
            crate::fdabit::gamma_of((edabits_vector_p@.len() * num_bucket) as nat),
        )) ==> res is Ok,
        (edabits_aligned(edabits_vector_p@, edabits_vector_v@) && num_bucket >= 1
            && crate::params::params_ok(
            (edabits_vector_p@.len() * num_bucket) as nat,
            crate::fdabit::gamma_of((edabits_vector_p@.len() * num_bucket) as nat),
        )) ==> (res is Ok <==> edabits_all_consistent(edabits_vector_p@)),
        res == Err::<(), Error>(Error::InvalidParameters) <==> !crate::params::params_ok(
            (edabits_vector_p@.len() * num_bucket) as nat,
            crate::fdabit::gamma_of((edabits_vector_p@.len() * num_bucket) as nat),
        ),
{
    let n = edabits_vector_p.len();
    let nb_bits = edabits_vector_p[0].bits.len();
    let ghost honest = edabits_honest(edabits_vector_p@, edabits_vector_v@);
    let ghost aligned_caller = edabits_aligned(edabits_vector_p@, edabits_vector_v@);
    let ghost params_fine = crate::params::params_ok(
        (edabits_vector_p@.len() * num_bucket) as nat,
        crate::fdabit::gamma_of((edabits_vector_p@.len() * num_bucket) as nat),
    );

    let nb_random_edabits = n * num_bucket + num_cut;
    let nb_random_dabits = n * num_bucket;

    // step 1)a): commit random edabits
    let (mut r_p, mut r_v) = random_edabits(rng, nb_bits, nb_random_edabits);

    // step 1)b): commit random dabits
    let (mut dabits_p, mut dabits_v) = crate::fdabit::random_dabits(rng, nb_random_dabits);

    // step 1)c): multiplication triples for the randomizer-consuming check
    let mut random_triples_p: Vec<TripleProver> = Vec::new();
    let mut random_triples_v: Vec<TripleVerifier> = Vec::new();
    if !with_quicksilver {
        proof {
            assert((n * num_bucket + num_cut) * nb_bits == num_bucket * n * nb_bits + num_cut
                * nb_bits) by (nonlinear_arith);
        }
        let how_many = num_bucket * n * nb_bits + num_cut * nb_bits;
        random_triples(rng, how_many, &mut random_triples_p, &mut random_triples_v);
    }

    // step 2): certify the dabits
    match crate::fdabit::fdabit(rng, &dabits_p, &dabits_v) {
        Ok(()) => {},
        Err(e) => {
            return Err(e);
        },
    }

    // step 3): joint seed for the shuffle
    let seed = crate::rng::gen_seed(rng);
    let mut shuffle_rng = crate::rng::rng_from_seed(&seed);

    // step 4): shuffle the three pools, both halves of each under the same
    // swap positions
    let ghost orig_r_p = r_p@;
    let ghost orig_r_v = r_v@;
    let idx_r = crate::perm::swap_indices(&mut shuffle_rng, r_p.len());
    crate::perm::generate_permutation(&idx_r, &mut r_p);
    crate::perm::generate_permutation(&idx_r, &mut r_v);
    proof {
        let rel = |p: EdabitsProver, v: EdabitsVerifier|
            {
                &&& edabit_ok(p, v)
                &&& edabit_consistent(p)
                &&& p.bits@.len() == nb_bits
                &&& v.bits@.len() == nb_bits
            };
        assert forall|a: int| 0 <= a < orig_r_p.len() implies #[trigger] rel(
            orig_r_p[a],
            orig_r_v[a],
        ) by {
            assert(edabit_ok(orig_r_p[a], orig_r_v[a]));
        }
        crate::perm::lemma_shuffle_preserves_rel(orig_r_p, orig_r_v, idx_r@, rel);
        assert forall|a: int| 0 <= a < r_p@.len() implies edabit_ok(#[trigger] r_p@[a], r_v@[a])
            && edabit_consistent(r_p@[a]) && r_p@[a].bits@.len() == nb_bits && r_v@[a].bits@.len()
            == nb_bits by {
            assert(rel(r_p@[a], r_v@[a]));
        }
    }

    let ghost orig_d_p = dabits_p@;
    let ghost orig_d_v = dabits_v@;
    let idx_d = crate::perm::swap_indices(&mut shuffle_rng, dabits_p.len());
    crate::perm::generate_permutation(&idx_d, &mut dabits_p);
    crate::perm::generate_permutation(&idx_d, &mut dabits_v);
    proof {
        let rel = |p: DabitProver, v: DabitVerifier|
            {
                &&& dabit_ok(p, v)
                &&& dabit_consistent(p)
            };
        assert forall|a: int| 0 <= a < orig_d_p.len() implies #[trigger] rel(
            orig_d_p[a],
            orig_d_v[a],
        ) by {
            assert(dabit_ok(orig_d_p[a], orig_d_v[a]));
        }
        crate::perm::lemma_shuffle_preserves_rel(orig_d_p, orig_d_v, idx_d@, rel);
        assert forall|a: int| 0 <= a < dabits_p@.len() implies dabit_ok(
            #[trigger] dabits_p@[a],
            dabits_v@[a],
        ) && dabit_consistent(dabits_p@[a]) by {
            assert(rel(dabits_p@[a], dabits_v@[a]));
        }
    }

    let ghost orig_t_p = random_triples_p@;
    let ghost orig_t_v = random_triples_v@;
    let idx_t = crate::perm::swap_indices(&mut shuffle_rng, random_triples_p.len());
    crate::perm::generate_permutation(&idx_t, &mut random_triples_p);
    crate::perm::generate_permutation(&idx_t, &mut random_triples_v);
    proof {
        let rel = |p: TripleProver, v: TripleVerifier|
            {
                &&& triple_ok(p, v)
                &&& triple_mul(v)
            };
        assert forall|a: int| 0 <= a < orig_t_p.len() implies #[trigger] rel(
            orig_t_p[a],
            orig_t_v[a],
        ) by {
            assert(triple_ok(orig_t_p[a], orig_t_v[a]));
        }
        crate::perm::lemma_shuffle_preserves_rel(orig_t_p, orig_t_v, idx_t@, rel);
        assert forall|a: int| 0 <= a < random_triples_p@.len() implies triple_ok(
            #[trigger] random_triples_p@[a],
            random_triples_v@[a],
        ) by {
            assert(rel(random_triples_p@[a], random_triples_v@[a]));
        }
        assert forall|a: int| 0 <= a < random_triples_v@.len() implies triple_mul(
            #[trigger] random_triples_v@[a],
        ) by {
            assert(rel(random_triples_p@[a], random_triples_v@[a]));
        }
    }

    // step 5)a): open the cut of random edabits end to end
    let base = n * num_bucket;
    match check_cut_edabits(&r_p, &r_v, base, num_cut) {
        Ok(()) => {},
        Err(e) => {
            return Err(e);
        },
    }

    // step 5)b): open the cut of randomizer triples
    if !with_quicksilver {
        proof {
            assert((n * num_bucket + num_cut) * nb_bits == n * num_bucket * nb_bits + num_cut
                * nb_bits) by (nonlinear_arith);
        }
        let base_t = n * num_bucket * nb_bits;
        match check_cut_triples(&random_triples_p, &random_triples_v, base_t, num_cut * nb_bits) {
            Ok(()) => {},
            Err(e) => {
                return Err(e);
            },
        }
    }

    // step 6): one bucket combine per window of fresh randomness
    let mut j: usize = 0;
    while j < num_bucket
        invariant
            j <= num_bucket,
            (aligned_caller && params_fine && j >= 1) ==> edabits_all_consistent(
                edabits_vector_p@,
            ),
        decreases num_bucket - j,
    {
        proof {
            assert(j as int * n as int + n as int <= n as int * num_bucket as int && (j as int
                * n as int) * nb_bits as int + n as int * nb_bits as int <= (n as int
                * num_bucket as int) * nb_bits as int) by (nonlinear_arith)
                requires
                    j < num_bucket,
                    n as int >= 0,
                    nb_bits as int >= 0,
            ;
            assert((n * num_bucket + num_cut) * nb_bits == (n as int * num_bucket as int)
                * nb_bits as int + num_cut * nb_bits) by (nonlinear_arith);
        }
        let idx_base = j * n;
        let r_win_p = sub_edabits_prover(&r_p, idx_base, n);
        let r_win_v = sub_edabits_verifier(&r_v, idx_base, n);
        let d_win_p = sub_dabits_prover(&dabits_p, idx_base, n);
        let d_win_v = sub_dabits_verifier(&dabits_v, idx_base, n);
        let (t_win_p, t_win_v) = if with_quicksilver {
            (Vec::new(), Vec::new())
        } else {
            let tb = idx_base * nb_bits;
            let tl = n * nb_bits;
            (sub_triples_prover(&random_triples_p, tb, tl), sub_triples_verifier(
                &random_triples_v,
                tb,
                tl,
            ))
        };
        proof {
            assert forall|a: int| 0 <= a < n implies edabit_ok(
                #[trigger] r_win_p@[a],
                r_win_v@[a],
            ) by {
                assert(edabit_ok(r_p@[idx_base + a], r_v@[idx_base + a]));
                assert(r_win_p@[a].bits@ == r_p@[idx_base + a].bits@);
                assert(r_win_v@[a].bits@ == r_v@[idx_base + a].bits@);
            }
            assert forall|a: int| 0 <= a < n implies edabit_consistent(#[trigger] r_win_p@[a]) by {
                assert(edabit_ok(r_p@[idx_base + a], r_v@[idx_base + a]));
                assert(edabit_consistent(r_p@[idx_base + a]));
                assert(r_win_p@[a].bits@ == r_p@[idx_base + a].bits@);
            }
            assert forall|a: int| 0 <= a < n implies (#[trigger] r_win_p@[a]).bits@.len()
                == nb_bits by {
                assert(edabit_ok(r_p@[idx_base + a], r_v@[idx_base + a]));
                assert(r_win_p@[a].bits@ == r_p@[idx_base + a].bits@);
            }
            assert forall|a: int| 0 <= a < n implies (#[trigger] r_win_v@[a]).bits@.len()
                == nb_bits by {
                assert(edabit_ok(r_p@[idx_base + a], r_v@[idx_base + a]));
                assert(r_win_v@[a].bits@ == r_v@[idx_base + a].bits@);
            }
            assert forall|a: int| 0 <= a < n implies dabit_ok(
                #[trigger] d_win_p@[a],
                d_win_v@[a],
            ) by {
                assert(d_win_p@[a] == dabits_p@[idx_base + a]);
                assert(d_win_v@[a] == dabits_v@[idx_base + a]);
                assert(dabit_ok(dabits_p@[idx_base + a], dabits_v@[idx_base + a]));
            }
            assert forall|a: int| 0 <= a < n implies dabit_consistent(#[trigger] d_win_p@[a]) by {
                assert(d_win_p@[a] == dabits_p@[idx_base + a]);
                assert(dabit_ok(dabits_p@[idx_base + a], dabits_v@[idx_base + a]));
                assert(dabit_consistent(dabits_p@[idx_base + a]));
            }
            if !with_quicksilver {
                assert(t_win_p@.len() == n * nb_bits);
                assert(t_win_v@.len() == n * nb_bits);
                assert forall|a: int| 0 <= a < t_win_p@.len() implies triple_ok(
                    #[trigger] t_win_p@[a],
                    t_win_v@[a],
                ) by {
                    assert(t_win_p@[a] == random_triples_p@[idx_base * nb_bits + a]);
                    assert(t_win_v@[a] == random_triples_v@[idx_base * nb_bits + a]);
                    assert(triple_ok(random_triples_p@[idx_base * nb_bits + a], random_triples_v@[
                        idx_base * nb_bits + a]));
                }
                assert forall|a: int| 0 <= a < t_win_v@.len() implies triple_mul(
                    #[trigger] t_win_v@[a],
                ) by {
                    assert(t_win_v@[a] == random_triples_v@[idx_base * nb_bits + a]);
                    assert(triple_ok(random_triples_p@[idx_base * nb_bits + a], random_triples_v@[
                        idx_base * nb_bits + a]));
                    assert(triple_mul(random_triples_v@[idx_base * nb_bits + a]));
                }
            }
        }
        match conv_loop(
            edabits_vector_p,
            edabits_vector_v,
            &r_win_p,
            &r_win_v,
            &d_win_p,
            &d_win_v,
            &t_win_p,
            &t_win_v,
        ) {
            Ok(()) => {
                proof {
                    assert(edabits_honest(r_win_p@, r_win_v@));
                    assert(crate::fdabit::dabits_honest(d_win_p@, d_win_v@));
                    if !with_quicksilver {
                        assert(triples_certified(t_win_p@, t_win_v@));
                    }
                }
            },
            Err(e) => {
                proof {
                    assert(edabits_honest(r_win_p@, r_win_v@));
                    assert(crate::fdabit::dabits_honest(d_win_p@, d_win_v@));
                    if !with_quicksilver {
                        assert(triples_certified(t_win_p@, t_win_v@));
                    }
                }
                return Err(e);
            },
        }
        j = j + 1;
    }

    Ok(())
}

} // verus!
