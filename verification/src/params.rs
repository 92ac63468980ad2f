//! The parameter check guarding the dabit consistency proof: configurations
//! whose statistical padding could wrap the prime modulus are rejected.

use vstd::prelude::*;
use vstd::arithmetic::power2::pow2;
use crate::Error;

verus! {

/// The number of bits of the modulus: the ceiling of `log2(P)`.
pub const MODULUS_BITS: usize = 61;

/// `floor(log2(n))` for `n >= 1`, and `0` for `n == 0`.
pub open spec fn log2_floor_spec(n: nat) -> nat
    decreases n,
{
    if n <= 1 {
        0
    } else {
        1 + log2_floor_spec(n / 2)
    }
}

/// The defining property of the floored logarithm.
pub proof fn lemma_log2_floor_bounds(n: nat)
    requires
        n >= 1,
    ensures
        pow2(log2_floor_spec(n)) <= n,
        n < pow2(log2_floor_spec(n) + 1),
    decreases n,
{
    if n <= 1 {
        assert(pow2(0) == 1 && pow2(1) == 2) by {
            vstd::arithmetic::power2::lemma2_to64();
        }
    } else {
        let l = log2_floor_spec(n / 2);
        lemma_log2_floor_bounds(n / 2);
        vstd::arithmetic::power2::lemma_pow2_unfold(l + 1);
        vstd::arithmetic::power2::lemma_pow2_unfold(l + 2);
        assert(n == 2 * (n / 2) + n % 2) by {
            vstd::arithmetic::div_mod::lemma_fundamental_div_mod(n as int, 2);
        }
    }
}

/// Executable floored logarithm in base two.
pub fn log2_floor(x: usize) -> (r: usize)
    requires
        x >= 1,
    ensures
        r == log2_floor_spec(x as nat),
        r <= 64,
{
    let mut n = x;
    let mut r: usize = 0;
    proof {
        assert(pow2(0) == 1) by {
            vstd::arithmetic::power2::lemma2_to64();
        }
    }
    while n > 1
        invariant
            n >= 1,
            r <= 64,
            log2_floor_spec(x as nat) == r + log2_floor_spec(n as nat),
            pow2(r as nat) * n as nat <= x as nat,
        decreases n,
    {
        proof {
            vstd::arithmetic::power2::lemma_pow2_unfold(r as nat + 1);
            assert(n as nat == 2 * (n as nat / 2) + n as nat % 2) by {
                vstd::arithmetic::div_mod::lemma_fundamental_div_mod(n as int, 2);
            }
            assert(pow2(r as nat + 1) * (n as nat / 2) <= pow2(r as nat) * n as nat) by (
            nonlinear_arith)
                requires
                    pow2(r as nat + 1) == 2 * pow2(r as nat),
                    2 * (n as nat / 2) <= n as nat,
            ;
            assert(pow2(r as nat) >= 1) by {
                vstd::arithmetic::power2::lemma_pow2_pos(r as nat);
            }
            assert(r < 64) by {
                if r >= 64 {
                    assert(pow2(64) <= pow2(r as nat)) by {
                        if r > 64 {
                            vstd::arithmetic::power2::lemma_pow2_strictly_increases(
                                64,
                                r as nat,
                            );
                        }
                    }
                    assert(pow2(64) == 0x10000000000000000) by {
                        vstd::arithmetic::power2::lemma2_to64_rest();
                    }
                    assert(pow2(r as nat) * n as nat >= pow2(r as nat)) by (nonlinear_arith)
                        requires
                            n as nat >= 1,
                            pow2(r as nat) >= 1,
                    ;
                }
            }
        }
        n = n / 2;
        r = r + 1;
    }
    r
}

/// A configuration the dabit consistency proof may run with: the number of
/// dabits `n` and the statistical padding width `gamma` stay clear of the
/// modulus.
pub open spec fn params_ok(n: nat, gamma: nat) -> bool {
    log2_floor_spec(n + 1) + gamma < (MODULUS_BITS - 1) as nat
}

/// Fails exactly when `floor(log2(n + 1)) + gamma >= ceil(log2(P)) - 1`, the
/// configurations on which `(n + 1) * 2^gamma` could reach `(P - 1) / 2` and
/// the statistical check could be forged by wraparound.
pub fn check_parameters(n: usize, gamma: usize) -> (r: Result<(), Error>)
    requires
        n < usize::MAX,
    ensures
        r is Ok <==> params_ok(n as nat, gamma as nat),
        r is Err ==> r == Err::<(), Error>(Error::InvalidParameters),
{
    if gamma >= MODULUS_BITS - 1 {
        return Err(Error::InvalidParameters);
    }
    let l = log2_floor(n + 1);
    proof {
        assert(l <= 64) by {
            lemma_log2_floor_bounds((n + 1) as nat);
            if l > 64 {
                assert(pow2(65) <= pow2(l as nat)) by {
                    if l > 65 {
                        vstd::arithmetic::power2::lemma_pow2_strictly_increases(65, l as nat);
                    }
                }
                assert(pow2(64) == 0x10000000000000000 && pow2(65) == 2 * 0x10000000000000000)
                    by {
                    vstd::arithmetic::power2::lemma2_to64_rest();
                    vstd::arithmetic::power2::lemma_pow2_unfold(65);
                }
            }
        }
    }
    if l + gamma >= MODULUS_BITS - 1 {
        Err(Error::InvalidParameters)
    } else {
        Ok(())
    }
}

/// An accepted configuration keeps the whole statistical sum below `2^60`,
/// and `2^60` below the modulus.
pub proof fn lemma_params_bound(n: nat, gamma: nat)
    requires
        params_ok(n, gamma),
    ensures
        (n + 1) * pow2(gamma) <= pow2(60),
        n + pow2(gamma) <= pow2(60),
        pow2(60) < crate::field::P as nat,
{
    let l = log2_floor_spec(n + 1);
    lemma_log2_floor_bounds(n + 1);
    vstd::arithmetic::power2::lemma_pow2_adds(l + 1, gamma);
    assert((n + 1) * pow2(gamma) <= pow2(l + 1 + gamma)) by (nonlinear_arith)
        requires
            n + 1 <= pow2(l + 1),
            pow2(l + 1) * pow2(gamma) == pow2(l + 1 + gamma),
            pow2(gamma) >= 0,
    ;
    if l + 1 + gamma < 60 {
        vstd::arithmetic::power2::lemma_pow2_strictly_increases(l + 1 + gamma, 60);
    }
    vstd::arithmetic::power2::lemma_pow2_pos(gamma);
    assert(n + pow2(gamma) <= (n + 1) * pow2(gamma)) by (nonlinear_arith)
        requires
            pow2(gamma) >= 1,
    ;
    assert(pow2(60) == 0x1000000000000000) by {
        vstd::arithmetic::power2::lemma2_to64_rest();
    }
}

} // verus!
