//! The cut-and-choose style consistency proof for dabits: with statistical
//! soundness `2^-38`, a batch of dabits is shown to carry the same bit in the
//! binary and in the prime field.

use rand::rngs::StdRng;
use vstd::prelude::*;
use vstd::arithmetic::power2::pow2;
use crate::Error;
use crate::field::{bit_int, f2_to_fe, Fp, P};
use crate::mac::{
    add_bit_prover, add_bit_verifier, add_fp_prover, add_fp_verifier, affine_add_cst_prover,
    affine_add_cst_verifier, affine_mult_cst_prover, affine_mult_cst_verifier, bit_ok,
    dabit_consistent, dabit_ok, fp_ok, fp_triple_mul, fp_triple_ok, input_bit, input_fp,
    mult_cst_bit_prover, mult_cst_bit_verifier, open_bits, open_fp, quicksilver_check_multiply_fp,
    random_bit_mac, DabitProver, DabitVerifier, FpTripleProver, FpTripleVerifier, MacBitProver,
    MacBitVerifier, MacFpProver, MacFpVerifier,
};
use crate::params::{check_parameters, lemma_params_bound, log2_floor, log2_floor_spec, params_ok};
use crate::rng::{gen_bool, gen_seed, rng_from_seed};

verus! {

/// The statistical security parameter of the dabit consistency proof.
pub const FDABIT_SECURITY_PARAMETER: usize = 38;

/// The padding width the proof derives from the batch size.
pub open spec fn gamma_of(n: nat) -> nat {
    log2_floor_spec(n + 1) + 1
}

/// An honest dabit batch: every dabit agrees with its committed record and
/// carries the same bit in both fields.
pub open spec fn dabits_honest(dp: Seq<DabitProver>, dv: Seq<DabitVerifier>) -> bool {
    &&& dp.len() == dv.len()
    &&& forall|i: int| 0 <= i < dp.len() ==> dabit_ok(#[trigger] dp[i], dv[i])
    &&& forall|i: int| 0 <= i < dp.len() ==> dabit_consistent(#[trigger] dp[i])
}

/// Draws a batch of fresh random dabits: a uniform authenticated bit, lifted
/// by the prover into the prime field and committed there too.
pub fn random_dabits(rng: &mut StdRng, num: usize) -> (r: (Vec<DabitProver>, Vec<DabitVerifier>))
    ensures
        r.0@.len() == num,
        r.1@.len() == num,
        dabits_honest(r.0@, r.1@),
{
    let mut dabits_p: Vec<DabitProver> = Vec::new();
    let mut dabits_v: Vec<DabitVerifier> = Vec::new();
    let mut i: usize = 0;
    while i < num
        invariant
            i <= num,
            dabits_p@.len() == i,
            dabits_v@.len() == i,
            forall|j: int| 0 <= j < i ==> dabit_ok(#[trigger] dabits_p@[j], dabits_v@[j]),
            forall|j: int| 0 <= j < i ==> dabit_consistent(#[trigger] dabits_p@[j]),
        decreases num - i,
    {
        let (b_p, b_v) = random_bit_mac(rng);
        let b_m = f2_to_fe(b_p.bit);
        let (v_p, v_v) = input_fp(b_m);
        dabits_p.push(DabitProver { bit: b_p, value: v_p });
        dabits_v.push(DabitVerifier { bit: b_v, value: v_v });
        i = i + 1;
    }
    (dabits_p, dabits_v)
}

/// The consistency proof for a batch of dabits.
///
/// Aborts with `InvalidParameters` exactly when the batch size and its
/// derived padding width fail the wraparound check.  On an honest batch with
/// accepted parameters the proof succeeds; a batch whose halves disagree is
/// caught by an opened batch (`MacMismatch`), and a dabit carrying different
/// bits in the two fields trips the cross-field comparison (`FailFdabit`)
/// except with probability `2^-38` over the challenge.
#[verifier::loop_isolation(false)]
pub fn fdabit(
    rng: &mut StdRng,
    dabits_p: &Vec<DabitProver>,
    dabits_v: &Vec<DabitVerifier>,
) -> (res: Result<(), Error>)
    requires
        dabits_p@.len() == dabits_v@.len(),
        dabits_p@.len() < usize::MAX,
    ensures
        res == Err::<(), Error>(Error::InvalidParameters) <==> !params_ok(
            dabits_p@.len(),
            gamma_of(dabits_p@.len()),
        ),
        (dabits_honest(dabits_p@, dabits_v@) && params_ok(
            dabits_p@.len(),
            gamma_of(dabits_p@.len()),
        )) ==> res is Ok,
{
    let s = FDABIT_SECURITY_PARAMETER;
    let n = dabits_p.len();

    let gamma = log2_floor(n + 1) + 1;
    match check_parameters(n, gamma) {
        Ok(()) => {},
        Err(e) => {
            return Err(e);
        },
    }
    proof {
        lemma_params_bound(n as nat, gamma as nat);
        assert(pow2(0) == 1 && pow2(1) == 2) by {
            vstd::arithmetic::power2::lemma2_to64();
        }
    }
    let ghost honest = dabits_honest(dabits_p@, dabits_v@);

    // step 1) the prover picks s rows of gamma random bits, commits their
    // lifts in the prime field, and commits the first bit of each row in the
    // binary field as well
    let mut c_m_p: Vec<Vec<MacFpProver>> = Vec::new();
    let mut c_m_v: Vec<Vec<MacFpVerifier>> = Vec::new();
    let mut c1_p: Vec<MacBitProver> = Vec::new();
    let mut c1_v: Vec<MacBitVerifier> = Vec::new();
    let mut k: usize = 0;
    while k < s
        invariant
            k <= s,
            c_m_p@.len() == k,
            c_m_v@.len() == k,
            c1_p@.len() == k,
            c1_v@.len() == k,
            forall|a: int| 0 <= a < k ==> (#[trigger] c_m_p@[a])@.len() == gamma,
            forall|a: int| 0 <= a < k ==> (#[trigger] c_m_v@[a])@.len() == gamma,
            forall|a: int, b: int|
                0 <= a < k && 0 <= b < gamma ==> fp_ok(
                    #[trigger] c_m_p@[a]@[b],
                    c_m_v@[a]@[b],
                ),
            forall|a: int, b: int|
                0 <= a < k && 0 <= b < gamma ==> 0 <= (#[trigger] c_m_p@[a]@[b]).value.as_int()
                    <= 1,
            forall|a: int|
                0 <= a < k ==> bit_int((#[trigger] c1_p@[a]).bit) == c_m_p@[a]@[0].value.as_int(),
            forall|a: int| 0 <= a < k ==> bit_ok(#[trigger] c1_p@[a], c1_v@[a]),
        decreases s - k,
    {
        let mut row_p: Vec<MacFpProver> = Vec::new();
        let mut row_v: Vec<MacFpVerifier> = Vec::new();
        let mut first_bit = false;
        let mut i: usize = 0;
        while i < gamma
            invariant
                i <= gamma,
                row_p@.len() == i,
                row_v@.len() == i,
                forall|b: int| 0 <= b < i ==> fp_ok(#[trigger] row_p@[b], row_v@[b]),
                forall|b: int| 0 <= b < i ==> 0 <= (#[trigger] row_p@[b]).value.as_int() <= 1,
                i > 0 ==> bit_int(first_bit) == row_p@[0].value.as_int(),
            decreases gamma - i,
        {
            let b = gen_bool(rng);
            if i == 0 {
                first_bit = b;
            }
            let b_m = f2_to_fe(b);
            let (m_p, m_v) = input_fp(b_m);
            row_p.push(m_p);
            row_v.push(m_v);
            i = i + 1;
        }
        let (b1_p, b1_v) = input_bit(first_bit);
        c_m_p.push(row_p);
        c_m_v.push(row_v);
        c1_p.push(b1_p);
        c1_v.push(b1_v);
        k = k + 1;
    }

    // step 2) for every padding bit a, commit the product a * (1 - a), which
    // an honest prover makes zero, and queue the multiplication triple
    let one = Fp::one();
    let neg_one = one.neg();
    let mut triples_p: Vec<FpTripleProver> = Vec::new();
    let mut triples_v: Vec<FpTripleVerifier> = Vec::new();
    let mut k: usize = 0;
    while k < s
        invariant
            k <= s,
            triples_p@.len() == triples_v@.len(),
            forall|j: int|
                0 <= j < triples_p@.len() ==> fp_triple_ok(#[trigger] triples_p@[j], triples_v@[j]),
            forall|j: int| 0 <= j < triples_v@.len() ==> fp_triple_mul(#[trigger] triples_v@[j]),
        decreases s - k,
    {
        let mut i: usize = 0;
        while i < gamma
            invariant
                i <= gamma,
                triples_p@.len() == triples_v@.len(),
                forall|j: int|
                    0 <= j < triples_p@.len() ==> fp_triple_ok(
                        #[trigger] triples_p@[j],
                        triples_v@[j],
                    ),
                forall|j: int|
                    0 <= j < triples_v@.len() ==> fp_triple_mul(#[trigger] triples_v@[j]),
            decreases gamma - i,
        {
            let andl_p = c_m_p[k][i];
            let andl_v = c_m_v[k][i];
            let minus_p = affine_mult_cst_prover(neg_one, andl_p);
            let minus_v = affine_mult_cst_verifier(neg_one, andl_v);
            let one_minus_p = affine_add_cst_prover(one, minus_p);
            let one_minus_v = affine_add_cst_verifier(one, minus_v);
            let and_res = andl_p.value.mul(one_minus_p.value);
            let (w_p, w_v) = input_fp(and_res);
            proof {
                assert(fp_ok(andl_p, andl_v));
                crate::field::Fp::lemma_eq_int(andl_p.value, andl_v.value);
                crate::field::Fp::lemma_eq_int(one_minus_p.value, one_minus_v.value);
            }
            triples_p.push((andl_p, one_minus_p, w_p));
            triples_v.push((andl_v, one_minus_v, w_v));
            i = i + 1;
        }
        k = k + 1;
    }

    // step 3) joint challenge seed, expanded to s * n uniform bits
    let seed = gen_seed(rng);
    let mut e_rng = rng_from_seed(&seed);

    // steps 4) and 6), one pass per row: the binary-field combination
    // r_k = c_{k,0} + sum e_{k,i} * bit_i and the prime-field combination
    // r'_k = sum lift(e_{k,i}) * value_i
    let mut r_batch_p: Vec<MacBitProver> = Vec::new();
    let mut r_batch_v: Vec<MacBitVerifier> = Vec::new();
    let mut r_prime_p: Vec<MacFpProver> = Vec::new();
    let mut r_prime_v: Vec<MacFpVerifier> = Vec::new();
    let ghost mut sums: Seq<int> = Seq::empty();
    let mut k: usize = 0;
    while k < s
        invariant
            k <= s,
            r_batch_p@.len() == k,
            r_batch_v@.len() == k,
            r_prime_p@.len() == k,
            r_prime_v@.len() == k,
            sums.len() == k,
            forall|a: int| 0 <= a < k ==> 0 <= #[trigger] sums[a] <= n,
            forall|a: int|
                0 <= a < k ==> bit_int((#[trigger] r_batch_p@[a]).bit) == (bit_int(c1_p@[a].bit)
                    + sums[a]) % 2,
            honest ==> forall|a: int|
                0 <= a < k ==> bit_ok(#[trigger] r_batch_p@[a], r_batch_v@[a]),
            honest ==> forall|a: int|
                0 <= a < k ==> (#[trigger] r_prime_p@[a]).value.as_int() == sums[a],
            honest ==> forall|a: int|
                0 <= a < k ==> fp_ok(#[trigger] r_prime_p@[a], r_prime_v@[a]),
        decreases s - k,
    {
        let mut r_p = c1_p[k];
        let mut r_v = c1_v[k];
        let zero = Fp::zero();
        let mut rp_p = MacFpProver { value: zero };
        let mut rp_v = MacFpVerifier { value: zero };
        let ghost mut sum: int = 0;
        let mut i: usize = 0;
        while i < n
            invariant
                i <= n,
                0 <= sum <= i,
                bit_int(r_p.bit) == (bit_int(c1_p@[k as int].bit) + sum) % 2,
                honest ==> r_p.bit == r_v.bit,
                honest ==> rp_p.value.as_int() == sum,
                honest ==> rp_v.value == rp_p.value,
            decreases n - i,
        {
            let e = gen_bool(&mut e_rng);
            let d_p = dabits_p[i];
            let d_v = dabits_v[i];
            let tmp_bit_p = mult_cst_bit_prover(e, d_p.bit);
            let tmp_bit_v = mult_cst_bit_verifier(e, d_v.bit);
            let new_r_p = add_bit_prover(r_p, tmp_bit_p);
            let new_r_v = add_bit_verifier(r_v, tmp_bit_v);
            let e_m = f2_to_fe(e);
            let tmp_fp_p = affine_mult_cst_prover(e_m, d_p.value);
            let tmp_fp_v = affine_mult_cst_verifier(e_m, d_v.value);
            let new_rp_p = add_fp_prover(rp_p, tmp_fp_p);
            let new_rp_v = add_fp_verifier(rp_v, tmp_fp_v);
            let ghost t: int = if e {
                bit_int(d_p.bit.bit)
            } else {
                0
            };
            proof {
                assert(dabits_p@[i as int] == d_p);
                assert(bit_int(new_r_p.bit) == (bit_int(c1_p@[k as int].bit) + (sum + t)) % 2);
                if honest {
                    assert(dabit_ok(dabits_p@[i as int], dabits_v@[i as int]));
                    assert(dabit_consistent(dabits_p@[i as int]));
                    // the prime-field term equals the binary term
                    assert(tmp_fp_p.value.as_int() == (bit_int(e) * bit_int(d_p.bit.bit)) % (
                    P as int));
                    assert(bit_int(e) * bit_int(d_p.bit.bit) == t);
                    vstd::arithmetic::div_mod::lemma_small_mod(t as nat, P as nat);
                    assert(sum + t <= n);
                    assert(n < P as int);
                    vstd::arithmetic::div_mod::lemma_small_mod((sum + t) as nat, P as nat);
                    crate::field::Fp::lemma_eq_int(rp_p.value, rp_v.value);
                    crate::field::Fp::lemma_eq_int(new_rp_p.value, new_rp_v.value);
                }
            }
            r_p = new_r_p;
            r_v = new_r_v;
            rp_p = new_rp_p;
            rp_v = new_rp_v;
            proof {
                sum = sum + t;
            }
            i = i + 1;
        }
        r_batch_p.push(r_p);
        r_batch_v.push(r_v);
        r_prime_p.push(rp_p);
        r_prime_v.push(rp_v);
        proof {
            sums = sums.push(sum);
        }
        k = k + 1;
    }

    // step 5) open the binary-field combinations
    let r_opened = match open_bits(&r_batch_p, &r_batch_v) {
        Ok(o) => o,
        Err(_) => {
            return Err(Error::MacMismatch);
        },
    };

    // step 7) tau_k = r'_k + sum 2^i * c_{k,i}, opened over the prime field
    let mut tau_p_batch: Vec<MacFpProver> = Vec::new();
    let mut tau_v_batch: Vec<MacFpVerifier> = Vec::new();
    let mut k: usize = 0;
    while k < s
        invariant
            k <= s,
            tau_p_batch@.len() == k,
            tau_v_batch@.len() == k,
            honest ==> forall|a: int|
                0 <= a < k ==> (#[trigger] tau_p_batch@[a]).value.as_int() % 2 == bit_int(
                    r_batch_p@[a].bit,
                ),
            honest ==> forall|a: int|
                0 <= a < k ==> fp_ok(#[trigger] tau_p_batch@[a], tau_v_batch@[a]),
        decreases s - k,
    {
        let mut tau_p = r_prime_p[k];
        let mut tau_v = r_prime_v[k];
        let mut twos = Fp::one();
        let ghost mut extra: int = 0;
        let mut i: usize = 0;
        proof {
            if gamma > 0 {
                vstd::arithmetic::power2::lemma_pow2_strictly_increases(0, gamma as nat);
            }
        }
        while i < gamma
            invariant
                i <= gamma,
                twos.as_int() == pow2(i as nat),
                pow2(i as nat) <= pow2(gamma as nat),
                0 <= extra <= pow2(i as nat) - 1,
                i >= 1 ==> extra % 2 == c_m_p@[k as int]@[0].value.as_int(),
                i == 0 ==> extra == 0,
                honest ==> tau_p.value.as_int() == sums[k as int] + extra,
                honest ==> tau_v.value == tau_p.value,
            decreases gamma - i,
        {
            let cm_p = c_m_p[k][i];
            let cm_v = c_m_v[k][i];
            let tmp_p = affine_mult_cst_prover(twos, cm_p);
            let tmp_v = affine_mult_cst_verifier(twos, cm_v);
            let new_tau_p = add_fp_prover(tau_p, tmp_p);
            let new_tau_v = add_fp_verifier(tau_v, tmp_v);
            let new_twos = twos.add(twos);
            let ghost c: int = cm_p.value.as_int();
            proof {
                assert(0 <= c <= 1);
                assert(pow2(i as nat) < P as nat);
                let term: int = pow2(i as nat) * c;
                assert(term == if c == 1 {
                    pow2(i as nat) as int
                } else {
                    0
                }) by (nonlinear_arith)
                    requires
                        term == pow2(i as nat) * c,
                        0 <= c <= 1,
                ;
                vstd::arithmetic::div_mod::lemma_small_mod(term as nat, P as nat);
                assert(tmp_p.value.as_int() == term);
                vstd::arithmetic::power2::lemma_pow2_unfold(i as nat + 1);
                vstd::arithmetic::power2::lemma_pow2_adds(i as nat + 1, (gamma - i - 1) as nat);
                vstd::arithmetic::power2::lemma_pow2_pos((gamma - i - 1) as nat);
                assert(pow2(i as nat + 1) <= pow2(gamma as nat)) by (nonlinear_arith)
                    requires
                        pow2(i as nat + 1) * pow2((gamma - i - 1) as nat) == pow2(gamma as nat),
                        pow2((gamma - i - 1) as nat) >= 1,
                ;
                if honest {
                    assert(sums[k as int] + extra + term <= n + pow2(i as nat + 1) - 1);
                    assert(n + pow2(gamma as nat) <= pow2(60));
                    assert(pow2(60) < P as nat);
                    vstd::arithmetic::div_mod::lemma_small_mod(
                        (sums[k as int] + extra + term) as nat,
                        P as nat,
                    );
                    crate::field::Fp::lemma_eq_int(tmp_p.value, tmp_v.value);
                    crate::field::Fp::lemma_eq_int(tau_p.value, tau_v.value);
                    crate::field::Fp::lemma_eq_int(new_tau_p.value, new_tau_v.value);
                }
                if i == 0 {
                    assert((extra + term) % 2 == c_m_p@[k as int]@[0].value.as_int());
                } else {
                    assert(pow2(i as nat) == 2 * pow2((i - 1) as nat)) by {
                        vstd::arithmetic::power2::lemma_pow2_unfold(i as nat);
                    }
                    assert(term == 2 * (pow2((i - 1) as nat) * c)) by (nonlinear_arith)
                        requires
                            term == pow2(i as nat) * c,
                            pow2(i as nat) == 2 * pow2((i - 1) as nat),
                    ;
                    assert((extra + term) % 2 == extra % 2);
                }
                extra = extra + term;
            }
            tau_p = new_tau_p;
            tau_v = new_tau_v;
            twos = new_twos;
            proof {
                vstd::arithmetic::div_mod::lemma_small_mod(pow2(i as nat + 1), P as nat);
            }
            i = i + 1;
        }
        proof {
            if honest {
                assert(gamma >= 1);
                // tau = sums[k] + extra with extra's parity the first padding
                // bit, and r's parity is the same combination
                assert(bit_int(r_batch_p@[k as int].bit) == (bit_int(c1_p@[k as int].bit)
                    + sums[k as int]) % 2);
                assert(bit_int(c1_p@[k as int].bit) == c_m_p@[k as int]@[0].value.as_int());
                assert(tau_p.value.as_int() % 2 == bit_int(r_batch_p@[k as int].bit));
            }
        }
        tau_p_batch.push(tau_p);
        tau_v_batch.push(tau_v);
        k = k + 1;
    }

    let tau_opened = match open_fp(&tau_p_batch, &tau_v_batch) {
        Ok(o) => o,
        Err(_) => {
            return Err(Error::MacMismatch);
        },
    };

    // step 8) the cross-field comparison: the parity of tau must match the
    // opened binary combination in every row
    let mut res_flag = true;
    let mut k: usize = 0;
    while k < s
        invariant
            k <= s,
            honest ==> res_flag,
        decreases s - k,
    {
        let b = r_opened[k] == tau_opened[k].low_bit();
        proof {
            if honest {
                assert(r_opened@[k as int] == r_batch_p@[k as int].bit);
                assert(tau_opened@[k as int] == tau_p_batch@[k as int].value);
            }
        }
        res_flag = res_flag && b;
        k = k + 1;
    }

    // the queued padding triples are checked in one batch
    match quicksilver_check_multiply_fp(&triples_p, &triples_v) {
        Ok(()) => {},
        Err(_) => {
            return Err(Error::MultiplyCheckFailed);
        },
    }

    if res_flag {
        Ok(())
    } else {
        Err(Error::FailFdabit)
    }
}

} // verus!
