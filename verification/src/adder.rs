//! The batched carry conversion and the batched authenticated ripple-carry
//! adder.

use vstd::prelude::*;
use vstd::arithmetic::power2::pow2;
use crate::Error;
use crate::field::{bit_int, f2_to_fe, fold_bits_int, lemma_fold_push, P};
use crate::mac::{
    add_bit_prover, add_bit_verifier, affine_add_cst_prover, affine_add_cst_verifier, bit_ok,
    bits_of_prover, dabit_consistent, input_bit, neg_fp_prover,
    neg_fp_verifier, open_bits, quicksilver_check_multiply, select_fp_prover, select_fp_verifier,
    triple_mul, triple_ok, wolverine_check_multiply, DabitProver, DabitVerifier, EdabitsProver,
    EdabitsVerifier, MacBitProver, MacBitVerifier, MacFpProver, MacFpVerifier, TripleProver,
    TripleVerifier,
};

verus! {

/// A prover-side and a verifier-side bit vector agree position by position.
pub open spec fn bits_aligned(p: Seq<MacBitProver>, v: Seq<MacBitVerifier>) -> bool {
    &&& p.len() == v.len()
    &&& forall|i: int| 0 <= i < p.len() ==> bit_ok(#[trigger] p[i], v[i])
}

/// The value the carry conversion produces from the opened bit `d` and the
/// dabit's field value `rv`.
pub open spec fn c2f_value(d: bool, rv: int) -> int {
    if d {
        (1 + P as int - rv) % (P as int)
    } else {
        rv % (P as int)
    }
}

/// Batched conversion of authenticated bits into authenticated field values
/// by masking each with a dabit: `d = dabit.bit + x` is opened, and the
/// result is `lift(d) + dabit.value` or `lift(d) - dabit.value` picked in
/// constant time.  Accepts exactly when the opened batch agrees with the
/// committed record; on consistent dabits the produced field value is the
/// lift of the input bit.
pub fn convert_bit_2_field(
    r_batch_p: &Vec<DabitProver>,
    r_batch_v: &Vec<DabitVerifier>,
    x_batch_p: &Vec<MacBitProver>,
    x_batch_v: &Vec<MacBitVerifier>,
) -> (res: Result<(Vec<MacFpProver>, Vec<MacFpVerifier>), Error>)
    requires
        r_batch_p@.len() == x_batch_p@.len(),
        r_batch_v@.len() == r_batch_p@.len(),
        x_batch_v@.len() == x_batch_p@.len(),
    ensures
        match res {
            Ok(out) => {
                &&& out.0@.len() == r_batch_p@.len()
                &&& out.1@.len() == r_batch_p@.len()
                &&& forall|i: int|
                    0 <= i < r_batch_p@.len() ==> ((#[trigger] r_batch_p@[i]).bit.bit
                        != x_batch_p@[i].bit) == (r_batch_v@[i].bit.bit != x_batch_v@[i].bit)
                &&& forall|i: int|
                    0 <= i < r_batch_p@.len() ==> (#[trigger] out.0@[i]).value.as_int()
                        == c2f_value(
                        r_batch_p@[i].bit.bit != x_batch_p@[i].bit,
                        r_batch_p@[i].value.value.as_int(),
                    )
                &&& forall|i: int|
                    0 <= i < r_batch_p@.len() ==> (#[trigger] out.1@[i]).value.as_int()
                        == c2f_value(
                        r_batch_v@[i].bit.bit != x_batch_v@[i].bit,
                        r_batch_v@[i].value.value.as_int(),
                    )
                &&& forall|i: int|
                    0 <= i < r_batch_p@.len() && dabit_consistent(#[trigger] r_batch_p@[i]) ==> (
                    #[trigger] out.0@[i]).value.as_int() == bit_int(x_batch_p@[i].bit)
            },
            Err(e) => {
                &&& e == Error::MacMismatch
                &&& exists|i: int|
                    0 <= i < r_batch_p@.len() && ((#[trigger] r_batch_p@[i]).bit.bit
                        != x_batch_p@[i].bit) != (r_batch_v@[i].bit.bit != x_batch_v@[i].bit)
            },
        },
{
    let n = r_batch_p.len();
    let mut c_batch_p: Vec<MacBitProver> = Vec::new();
    let mut c_batch_v: Vec<MacBitVerifier> = Vec::new();
    let mut i: usize = 0;
    while i < n
        invariant
            i <= n,
            n == r_batch_p@.len() == x_batch_p@.len(),
            n == r_batch_v@.len() == x_batch_v@.len(),
            c_batch_p@.len() == i,
            c_batch_v@.len() == i,
            forall|j: int|
                0 <= j < i ==> (#[trigger] c_batch_p@[j]).bit == (r_batch_p@[j].bit.bit
                    != x_batch_p@[j].bit),
            forall|j: int|
                0 <= j < i ==> (#[trigger] c_batch_v@[j]).bit == (r_batch_v@[j].bit.bit
                    != x_batch_v@[j].bit),
        decreases n - i,
    {
        c_batch_p.push(add_bit_prover(r_batch_p[i].bit, x_batch_p[i]));
        c_batch_v.push(add_bit_verifier(r_batch_v[i].bit, x_batch_v[i]));
        i = i + 1;
    }
    let opened = match open_bits(&c_batch_p, &c_batch_v) {
        Ok(o) => o,
        Err(e) => {
            return Err(e);
        },
    };

    proof {
        assert forall|j: int| 0 <= j < n implies (#[trigger] opened@[j]) == (r_batch_p@[j].bit.bit
            != x_batch_p@[j].bit) by {
            assert(opened@[j] == c_batch_p@[j].bit && bit_ok(c_batch_p@[j], c_batch_v@[j]));
        }
        assert forall|j: int| 0 <= j < n implies ((#[trigger] r_batch_p@[j]).bit.bit
            != x_batch_p@[j].bit) == (r_batch_v@[j].bit.bit != x_batch_v@[j].bit) by {
            assert(opened@[j] == c_batch_p@[j].bit && bit_ok(c_batch_p@[j], c_batch_v@[j]));
        }
    }
    let mut x_m_batch_p: Vec<MacFpProver> = Vec::new();
    let mut x_m_batch_v: Vec<MacFpVerifier> = Vec::new();
    let mut i: usize = 0;
    while i < n
        invariant
            i <= n,
            n == r_batch_p@.len() == x_batch_p@.len(),
            n == r_batch_v@.len() == x_batch_v@.len(),
            n == opened@.len() == c_batch_p@.len(),
            forall|j: int|
                0 <= j < n ==> (#[trigger] opened@[j]) == (r_batch_p@[j].bit.bit
                    != x_batch_p@[j].bit),
            forall|j: int|
                0 <= j < n ==> ((#[trigger] r_batch_p@[j]).bit.bit != x_batch_p@[j].bit) == (
                r_batch_v@[j].bit.bit != x_batch_v@[j].bit),
            x_m_batch_p@.len() == i,
            x_m_batch_v@.len() == i,
            forall|j: int|
                0 <= j < i ==> (#[trigger] x_m_batch_p@[j]).value.as_int() == c2f_value(
                    r_batch_p@[j].bit.bit != x_batch_p@[j].bit,
                    r_batch_p@[j].value.value.as_int(),
                ),
            forall|j: int|
                0 <= j < i ==> (#[trigger] x_m_batch_v@[j]).value.as_int() == c2f_value(
                    r_batch_v@[j].bit.bit != x_batch_v@[j].bit,
                    r_batch_v@[j].value.value.as_int(),
                ),
            forall|j: int|
                0 <= j < i && dabit_consistent(#[trigger] r_batch_p@[j]) ==> x_m_batch_p@[j]
                    .value.as_int() == bit_int(x_batch_p@[j].bit),
        decreases n - i,
    {
        let c = opened[i];
        let dab_p = r_batch_p[i];
        let dab_v = r_batch_v[i];
        let c_m = f2_to_fe(c);
        let beq_p = affine_add_cst_prover(c_m, neg_fp_prover(dab_p.value));
        let bneq_p = affine_add_cst_prover(c_m, dab_p.value);
        let x_m_p = select_fp_prover(bneq_p, beq_p, c);
        let beq_v = affine_add_cst_verifier(c_m, neg_fp_verifier(dab_v.value));
        let bneq_v = affine_add_cst_verifier(c_m, dab_v.value);
        let x_m_v = select_fp_verifier(bneq_v, beq_v, c);
        proof {
            let rv_p = r_batch_p@[i as int].value.value.as_int();
            let rv_v = r_batch_v@[i as int].value.value.as_int();
            use_type_invariant(&dab_p.value.value);
            use_type_invariant(&dab_v.value.value);
            lemma_c2f_branches(c, rv_p);
            lemma_c2f_branches(c, rv_v);
            if dabit_consistent(r_batch_p@[i as int]) {
                lemma_c2f_consistent(r_batch_p@[i as int].bit.bit, x_batch_p@[i as int].bit);
            }
        }
        x_m_batch_p.push(x_m_p);
        x_m_batch_v.push(x_m_v);
        i = i + 1;
    }
    Ok((x_m_batch_p, x_m_batch_v))
}

/// The prover-side and verifier-side halves of every edabit in a batch agree
/// bit by bit.
pub open spec fn edabits_bits_aligned(xp: Seq<EdabitsProver>, xv: Seq<EdabitsVerifier>) -> bool {
    &&& xp.len() == xv.len()
    &&& forall|n: int| 0 <= n < xp.len() ==> bits_aligned((#[trigger] xp[n]).bits@, xv[n].bits@)
}

/// Every edabit of a prover-side batch has bit width `m`.
pub open spec fn uniform_width_prover(xp: Seq<EdabitsProver>, m: int) -> bool {
    forall|n: int| 0 <= n < xp.len() ==> (#[trigger] xp[n]).bits@.len() == m
}

/// Every edabit of a verifier-side batch has bit width `m`.
pub open spec fn uniform_width_verifier(xv: Seq<EdabitsVerifier>, m: int) -> bool {
    forall|n: int| 0 <= n < xv.len() ==> (#[trigger] xv[n]).bits@.len() == m
}

/// A pool of randomizer triples whose halves agree and whose committed
/// products hold.
pub open spec fn triples_certified(rp: Seq<TripleProver>, rv: Seq<TripleVerifier>) -> bool {
    &&& rp.len() == rv.len()
    &&& forall|j: int| 0 <= j < rp.len() ==> triple_ok(#[trigger] rp[j], rv[j])
    &&& forall|j: int| 0 <= j < rv.len() ==> triple_mul(#[trigger] rv[j])
}

/// The ripple-carry addition theorem for one batch element: the output bits
/// and the carry stand for the integer sum of the two inputs.
pub open spec fn adder_output_ok(xb: Seq<bool>, yb: Seq<bool>, zb: Seq<bool>, carry: bool) -> bool {
    fold_bits_int(zb) + pow2(xb.len()) * bit_int(carry) == fold_bits_int(xb) + fold_bits_int(yb)
}

/// Batched authenticated ripple-carry adder.  Adds each edabit of the first
/// batch to the matching edabit of the second, bit by bit; the prover inputs
/// each carry product as a fresh authenticated bit and the collected
/// multiplication triples are checked in one batch at the end — by the
/// self-contained check when no randomizer triples are supplied, and by the
/// randomizer-consuming check otherwise.
///
/// The returned prover-side sum bits and carry always stand for the integer
/// sum of the prover-side inputs; when the inputs agree with their committed
/// records, so do the outputs, and the call succeeds.
pub fn bit_add_carry(
    x_batch_p: &Vec<EdabitsProver>,
    x_batch_v: &Vec<EdabitsVerifier>,
    y_batch_p: &Vec<EdabitsProver>,
    y_batch_v: &Vec<EdabitsVerifier>,
    random_triples_p: &Vec<TripleProver>,
    random_triples_v: &Vec<TripleVerifier>,
) -> (res: Result<
    (Vec<(Vec<MacBitProver>, MacBitProver)>, Vec<(Vec<MacBitVerifier>, MacBitVerifier)>),
    Error,
>)
    requires
        x_batch_p@.len() >= 1,
        x_batch_v@.len() == x_batch_p@.len(),
        y_batch_v@.len() == y_batch_p@.len(),
        uniform_width_prover(x_batch_p@, x_batch_p@[0].bits@.len() as int),
        uniform_width_verifier(x_batch_v@, x_batch_p@[0].bits@.len() as int),
        uniform_width_prover(y_batch_p@, x_batch_p@[0].bits@.len() as int),
        uniform_width_verifier(y_batch_v@, x_batch_p@[0].bits@.len() as int),
    ensures
        match res {
            Ok(out) => {
                &&& x_batch_p@.len() == y_batch_p@.len()
                &&& out.0@.len() == x_batch_p@.len()
                &&& out.1@.len() == x_batch_p@.len()
                &&& forall|n: int|
                    0 <= n < x_batch_p@.len() ==> (#[trigger] out.0@[n]).0@.len()
                        == x_batch_p@[0].bits@.len()
                &&& forall|n: int|
                    0 <= n < x_batch_p@.len() ==> (#[trigger] out.1@[n]).0@.len()
                        == x_batch_p@[0].bits@.len()
                &&& forall|n: int|
                    0 <= n < x_batch_p@.len() ==> adder_output_ok(
                        bits_of_prover(x_batch_p@[n].bits@),
                        bits_of_prover(y_batch_p@[n].bits@),
                        bits_of_prover((#[trigger] out.0@[n]).0@),
                        out.0@[n].1.bit,
                    )
                &&& (edabits_bits_aligned(x_batch_p@, x_batch_v@) && edabits_bits_aligned(
                    y_batch_p@,
                    y_batch_v@,
                )) ==> forall|n: int|
                    0 <= n < x_batch_p@.len() ==> bits_aligned(
                        (#[trigger] out.0@[n]).0@,
                        out.1@[n].0@,
                    ) && bit_ok(out.0@[n].1, out.1@[n].1)
            },
            Err(e) => e == Error::IncompatibleVectors || e == Error::MultiplyCheckFailed,
        },
        (x_batch_p@.len() == y_batch_p@.len() && edabits_bits_aligned(x_batch_p@, x_batch_v@)
            && edabits_bits_aligned(y_batch_p@, y_batch_v@) && (random_triples_p@.len() == 0 || (
        triples_certified(random_triples_p@, random_triples_v@) && random_triples_p@.len()
            >= x_batch_p@.len() * x_batch_p@[0].bits@.len()))) ==> res is Ok,
{
    let num = x_batch_p.len();
    if num != y_batch_p.len() {
        return Err(Error::IncompatibleVectors);
    }
    let m = x_batch_p[0].bits.len();
    let ghost aligned_inputs = edabits_bits_aligned(x_batch_p@, x_batch_v@)
        && edabits_bits_aligned(y_batch_p@, y_batch_v@);

    let mut triples_p: Vec<TripleProver> = Vec::new();
    let mut triples_v: Vec<TripleVerifier> = Vec::new();
    let mut res_p: Vec<(Vec<MacBitProver>, MacBitProver)> = Vec::new();
    let mut res_v: Vec<(Vec<MacBitVerifier>, MacBitVerifier)> = Vec::new();

    let mut n: usize = 0;
    while n < num
        invariant
            n <= num,
            num == x_batch_p@.len() == x_batch_v@.len(),
            num == y_batch_p@.len() == y_batch_v@.len(),
            m == x_batch_p@[0].bits@.len(),
            uniform_width_prover(x_batch_p@, m as int),
            uniform_width_verifier(x_batch_v@, m as int),
            uniform_width_prover(y_batch_p@, m as int),
            uniform_width_verifier(y_batch_v@, m as int),
            aligned_inputs == (edabits_bits_aligned(x_batch_p@, x_batch_v@)
                && edabits_bits_aligned(y_batch_p@, y_batch_v@)),
            res_p@.len() == n,
            res_v@.len() == n,
            triples_p@.len() == n * m,
            triples_v@.len() == n * m,
            forall|k: int| 0 <= k < n ==> (#[trigger] res_p@[k]).0@.len() == m,
            forall|k: int| 0 <= k < n ==> (#[trigger] res_v@[k]).0@.len() == m,
            forall|k: int|
                0 <= k < n ==> adder_output_ok(
                    bits_of_prover(x_batch_p@[k].bits@),
                    bits_of_prover(y_batch_p@[k].bits@),
                    bits_of_prover((#[trigger] res_p@[k]).0@),
                    res_p@[k].1.bit,
                ),
            aligned_inputs ==> forall|k: int|
                0 <= k < n ==> bits_aligned((#[trigger] res_p@[k]).0@, res_v@[k].0@) && bit_ok(
                    res_p@[k].1,
                    res_v@[k].1,
                ),
            aligned_inputs ==> forall|j: int|
                0 <= j < triples_p@.len() ==> triple_ok(#[trigger] triples_p@[j], triples_v@[j]),
            aligned_inputs ==> forall|j: int|
                0 <= j < triples_v@.len() ==> triple_mul(#[trigger] triples_v@[j]),
        decreases num - n,
    {
        let (c0_p, c0_v) = input_bit(false);
        let mut c_p = c0_p;
        let mut c_v = c0_v;
        let mut z_p: Vec<MacBitProver> = Vec::new();
        let mut z_v: Vec<MacBitVerifier> = Vec::new();
        let ghost xb = bits_of_prover(x_batch_p@[n as int].bits@);
        let ghost yb = bits_of_prover(y_batch_p@[n as int].bits@);
        let ghost elem_aligned = bits_aligned(x_batch_p@[n as int].bits@, x_batch_v@[n as int].bits@)
            && bits_aligned(y_batch_p@[n as int].bits@, y_batch_v@[n as int].bits@);
        let mut i: usize = 0;
        proof {
            assert(xb.take(0) =~= Seq::<bool>::empty());
            assert(yb.take(0) =~= Seq::<bool>::empty());
            assert(pow2(0) == 1) by {
                vstd::arithmetic::power2::lemma2_to64();
            }
        }
        while i < m
            invariant
                i <= m,
                n < num,
                num == x_batch_p@.len() == x_batch_v@.len(),
                num == y_batch_p@.len() == y_batch_v@.len(),
                uniform_width_prover(x_batch_p@, m as int),
                uniform_width_verifier(x_batch_v@, m as int),
                uniform_width_prover(y_batch_p@, m as int),
                uniform_width_verifier(y_batch_v@, m as int),
                xb == bits_of_prover(x_batch_p@[n as int].bits@),
                yb == bits_of_prover(y_batch_p@[n as int].bits@),
                elem_aligned == (bits_aligned(x_batch_p@[n as int].bits@, x_batch_v@[n as int].bits@)
                    && bits_aligned(y_batch_p@[n as int].bits@, y_batch_v@[n as int].bits@)),
                aligned_inputs == (edabits_bits_aligned(x_batch_p@, x_batch_v@)
                    && edabits_bits_aligned(y_batch_p@, y_batch_v@)),
                aligned_inputs ==> elem_aligned,
                z_p@.len() == i,
                z_v@.len() == i,
                fold_bits_int(bits_of_prover(z_p@)) + pow2(i as nat) * bit_int(c_p.bit)
                    == fold_bits_int(xb.take(i as int)) + fold_bits_int(yb.take(i as int)),
                elem_aligned ==> bits_aligned(z_p@, z_v@) && c_p.bit == c_v.bit,
                triples_p@.len() == n * m + i,
                triples_v@.len() == n * m + i,
                aligned_inputs ==> forall|j: int|
                    0 <= j < triples_p@.len() ==> triple_ok(
                        #[trigger] triples_p@[j],
                        triples_v@[j],
                    ),
                aligned_inputs ==> forall|j: int|
                    0 <= j < triples_v@.len() ==> triple_mul(#[trigger] triples_v@[j]),
            decreases m - i,
        {
            let xe_p = &x_batch_p[n];
            let ye_p = &y_batch_p[n];
            let xe_v = &x_batch_v[n];
            let ye_v = &y_batch_v[n];
            let xi_p = xe_p.bits[i];
            let yi_p = ye_p.bits[i];
            let xi_v = xe_v.bits[i];
            let yi_v = ye_v.bits[i];

            let and1_p = add_bit_prover(xi_p, c_p);
            let and2_p = add_bit_prover(yi_p, c_p);
            let and_res = and1_p.bit && and2_p.bit;
            let zi_p = add_bit_prover(and1_p, yi_p);

            let and1_v = add_bit_verifier(xi_v, c_v);
            let and2_v = add_bit_verifier(yi_v, c_v);
            let zi_v = add_bit_verifier(and1_v, yi_v);

            let (w_p, w_v) = input_bit(and_res);

            proof {
                let zi: int = bit_int(zi_p.bit);
                let cn: int = bit_int(c_p.bit != and_res);
                let xi: int = bit_int(xi_p.bit);
                let yi: int = bit_int(yi_p.bit);
                let ci: int = bit_int(c_p.bit);
                assert(zi + 2 * cn == xi + yi + ci);
                assert(pow2(i as nat + 1) == 2 * pow2(i as nat)) by {
                    vstd::arithmetic::power2::lemma_pow2_unfold(i as nat + 1);
                }
                assert(pow2(i as nat) * zi + pow2(i as nat + 1) * cn == pow2(i as nat) * xi + pow2(
                    i as nat,
                ) * yi + pow2(i as nat) * ci) by (nonlinear_arith)
                    requires
                        zi + 2 * cn == xi + yi + ci,
                        pow2(i as nat + 1) == 2 * pow2(i as nat),
                ;
                lemma_fold_push(bits_of_prover(z_p@), zi_p.bit);
                assert(bits_of_prover(z_p@.push(zi_p)) =~= bits_of_prover(z_p@).push(zi_p.bit));
                lemma_fold_push(xb.take(i as int), xb[i as int]);
                lemma_fold_push(yb.take(i as int), yb[i as int]);
                assert(xb.take(i + 1) =~= xb.take(i as int).push(xb[i as int]));
                assert(yb.take(i + 1) =~= yb.take(i as int).push(yb[i as int]));
                assert(xb[i as int] == xi_p.bit && yb[i as int] == yi_p.bit);
            }

            z_p.push(zi_p);
            z_v.push(zi_v);
            triples_p.push((and1_p, and2_p, w_p));
            triples_v.push((and1_v, and2_v, w_v));
            c_p = add_bit_prover(c_p, w_p);
            c_v = add_bit_verifier(c_v, w_v);
            proof {
                if elem_aligned {
                    assert(bit_ok(xi_p, xi_v) && bit_ok(yi_p, yi_v));
                    assert(bits_aligned(z_p@, z_v@));
                }
                if aligned_inputs {
                    assert(triple_ok(triples_p@[triples_p@.len() - 1], triples_v@[triples_v@.len()
                        - 1]));
                    assert(triple_mul(triples_v@[triples_v@.len() - 1]));
                }
            }
            i = i + 1;
        }
        proof {
            assert(xb.take(m as int) =~= xb);
            assert(yb.take(m as int) =~= yb);
        }
        res_p.push((z_p, c_p));
        res_v.push((z_v, c_v));
        proof {
            assert(adder_output_ok(
                bits_of_prover(x_batch_p@[n as int].bits@),
                bits_of_prover(y_batch_p@[n as int].bits@),
                bits_of_prover(res_p@[n as int].0@),
                res_p@[n as int].1.bit,
            ));
            if aligned_inputs {
                assert(bits_aligned(res_p@[n as int].0@, res_v@[n as int].0@) && bit_ok(
                    res_p@[n as int].1,
                    res_v@[n as int].1,
                ));
            }
            assert((n as int + 1) * (m as int) == n as int * m as int + m as int)
                by (nonlinear_arith);
        }
        n = n + 1;
    }

    let check = if random_triples_p.len() == 0 {
        quicksilver_check_multiply(&triples_p, &triples_v)
    } else {
        wolverine_check_multiply(&triples_p, &triples_v, random_triples_p, random_triples_v)
    };
    match check {
        Ok(()) => Ok((res_p, res_v)),
        Err(e) => Err(e),
    }
}

/// The two affine branches of the carry conversion compute `c2f_value`.
proof fn lemma_c2f_branches(c: bool, rv: int)
    requires
        0 <= rv < P as int,
    ensures
        (bit_int(c) + (P as int - rv) % (P as int)) % (P as int) == (if c {
            c2f_value(true, rv)
        } else {
            (P as int - rv) % (P as int)
        }),
        (bit_int(c) + rv) % (P as int) == (if c {
            (1 + rv) % (P as int)
        } else {
            c2f_value(false, rv)
        }),
{
    let p = P as int;
    vstd::arithmetic::div_mod::lemma_mod_bound(p - rv, p);
    vstd::arithmetic::div_mod::lemma_add_mod_noop(bit_int(c), p - rv, p);
    vstd::arithmetic::div_mod::lemma_small_mod(bit_int(c) as nat, P as nat);
    vstd::arithmetic::div_mod::lemma_small_mod(rv as nat, P as nat);
    if c {
        assert((1 + (p - rv) % p) % p == (1 + (p - rv)) % p);
    } else {
        assert((0 + (p - rv) % p) % p == (p - rv) % p);
        assert((0 + rv) % p == rv);
    }
}

/// On a consistent dabit the conversion yields the lift of the input bit.
proof fn lemma_c2f_consistent(rb: bool, x: bool)
    ensures
        c2f_value(rb != x, bit_int(rb)) == bit_int(x),
{
    let p = P as int;
    if rb != x {
        if rb {
            // (1 + p - 1) % p == 0
            assert(p % p == 0) by {
                vstd::arithmetic::div_mod::lemma_mod_self_0(p);
            }
        } else {
            // (1 + p - 0) % p == 1
            assert((p + 1) % p == 1) by {
                vstd::arithmetic::div_mod::lemma_mod_add_multiples_vanish(1, p);
                vstd::arithmetic::div_mod::lemma_small_mod(1nat, P as nat);
            }
        }
    } else {
        vstd::arithmetic::div_mod::lemma_small_mod(bit_int(rb) as nat, P as nat);
    }
}

} // verus!
