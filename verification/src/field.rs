//! The prime field of order `2^61 - 1` that carries the arithmetic side of an
//! edabit, together with the bit-lifting helpers the protocol folds bits with.

use subtle::ConditionallySelectable;
use vstd::prelude::*;
use vstd::arithmetic::div_mod::{lemma_add_mod_noop, lemma_small_mod, lemma_mod_bound};
use vstd::arithmetic::power2::pow2;

verus! {

/// The prime modulus `2^61 - 1`.
pub const P: u64 = 0x1fff_ffff_ffff_ffff;

/// An element of the prime field of order [`P`], kept in reduced form.
#[derive(Clone, Copy, PartialEq, Eq, Structural, Debug)]
pub struct Fp {
    v: u64,
}

impl Fp {
    /// The integer in `[0, P)` this element stands for.
    pub closed spec fn as_int(self) -> int {
        self.v as int
    }

    /// Every element is kept reduced: `use_type_invariant` recovers this
    /// range for any `Fp` an executable function holds.
    #[verifier::type_invariant]
    pub open spec fn reduced(self) -> bool {
        0 <= self.as_int() < P
    }

    /// Two elements are equal exactly when they stand for the same integer.
    pub proof fn lemma_eq_int(a: Fp, b: Fp)
        ensures
            (a == b) <==> (a.as_int() == b.as_int()),
    {
    }

    /// Builds the element standing for `x` reduced modulo `P`.
    pub fn from_u64(x: u64) -> (r: Fp)
        ensures
            r.as_int() == x as int % P as int,
    {
        Fp { v: x % P }
    }

    pub fn zero() -> (r: Fp)
        ensures
            r.as_int() == 0,
    {
        Fp { v: 0 }
    }

    pub fn one() -> (r: Fp)
        ensures
            r.as_int() == 1,
    {
        Fp { v: 1 }
    }

    /// The reduced representative, as a machine integer.
    pub fn as_u64(self) -> (r: u64)
        ensures
            r as int == self.as_int(),
            r < P,
    {
        proof {
            use_type_invariant(&self);
        }
        self.v
    }

    /// Field addition: `(self + other) mod P`.
    pub fn add(self, other: Fp) -> (r: Fp)
        ensures
            r.as_int() == (self.as_int() + other.as_int()) % (P as int),
    {
        proof {
            use_type_invariant(&self);
            use_type_invariant(&other);
        }
        let s = self.v + other.v;
        if s >= P {
            proof {
                lemma_small_mod((s - P) as nat, P as nat);
                assert((s as int) % (P as int) == (s - P) as int % (P as int)) by {
                    vstd::arithmetic::div_mod::lemma_mod_sub_multiples_vanish(s as int, P as int);
                }
            }
            Fp { v: s - P }
        } else {
            proof {
                lemma_small_mod(s as nat, P as nat);
            }
            Fp { v: s }
        }
    }

    /// Field negation: `(P - self) mod P`.
    pub fn neg(self) -> (r: Fp)
        ensures
            r.as_int() == (P as int - self.as_int()) % (P as int),
    {
        proof {
            use_type_invariant(&self);
        }
        if self.v == 0 {
            proof {
                assert(P as int % P as int == 0) by {
                    vstd::arithmetic::div_mod::lemma_mod_self_0(P as int);
                }
            }
            Fp { v: 0 }
        } else {
            proof {
                lemma_small_mod((P - self.v) as nat, P as nat);
            }
            Fp { v: P - self.v }
        }
    }

    /// Field subtraction: `(self + P - other) mod P`.
    pub fn sub(self, other: Fp) -> (r: Fp)
        ensures
            r.as_int() == (self.as_int() + P as int - other.as_int()) % (P as int),
    {
        proof {
            use_type_invariant(&self);
            use_type_invariant(&other);
        }
        let s = self.v + (P - other.v);
        if s >= P {
            proof {
                lemma_small_mod((s - P) as nat, P as nat);
                assert((s as int) % (P as int) == (s - P) as int % (P as int)) by {
                    vstd::arithmetic::div_mod::lemma_mod_sub_multiples_vanish(s as int, P as int);
                }
            }
            Fp { v: s - P }
        } else {
            proof {
                lemma_small_mod(s as nat, P as nat);
            }
            Fp { v: s }
        }
    }

    /// Field multiplication: `(self * other) mod P`.
    pub fn mul(self, other: Fp) -> (r: Fp)
        ensures
            r.as_int() == (self.as_int() * other.as_int()) % (P as int),
    {
        proof {
            use_type_invariant(&self);
            use_type_invariant(&other);
        }
        let a = self.v as u128;
        let b = other.v as u128;
        proof {
            assert(a * b <= (P - 1) as u128 * (P - 1) as u128) by (nonlinear_arith)
                requires
                    a <= (P - 1) as u128,
                    b <= (P - 1) as u128,
            ;
        }
        let prod = a * b;
        let red = prod % (P as u128);
        proof {
            lemma_mod_bound(prod as int, P as int);
        }
        Fp { v: red as u64 }
    }

    /// Equality as a boolean, stated over the integers the elements stand for.
    pub fn equals(self, other: Fp) -> (r: bool)
        ensures
            r <==> self.as_int() == other.as_int(),
    {
        self.v == other.v
    }

    /// The low bit of the reduced representative's bit decomposition.
    pub fn low_bit(self) -> (r: bool)
        ensures
            r <==> self.as_int() % 2 == 1,
    {
        proof {
            use_type_invariant(&self);
        }
        self.v % 2 == 1
    }
}

/// Relies on subtle's `u64::conditional_select`: picks the first operand when
/// the choice is 0 and the second when it is 1, without a data-dependent
/// branch.
#[verifier::external_body]
fn u64_select(a: u64, b: u64, choice: bool) -> (r: u64)
    ensures
        r == (if choice { b } else { a }),
{
    u64::conditional_select(&a, &b, subtle::Choice::from(choice as u8))
}

/// Constant-time selection between two field elements by a secret bit.
pub fn select(a: Fp, b: Fp, choice: bool) -> (r: Fp)
    ensures
        r == (if choice { b } else { a }),
{
    proof {
        use_type_invariant(&a);
        use_type_invariant(&b);
    }
    let v = u64_select(a.v, b.v, choice);
    Fp { v }
}

/// Lifts a bit of the binary field into the prime field, in constant time.
pub fn f2_to_fe(b: bool) -> (r: Fp)
    ensures
        r.as_int() == (if b { 1int } else { 0int }),
{
    select(Fp::zero(), Fp::one(), b)
}

/// The integer a bit stands for.
pub open spec fn bit_int(b: bool) -> int {
    if b {
        1
    } else {
        0
    }
}

/// The integer a little-endian bit vector stands for: bit `i` weighs `2^i`.
pub open spec fn fold_bits_int(bits: Seq<bool>) -> int
    decreases bits.len(),
{
    if bits.len() == 0 {
        0
    } else {
        bit_int(bits[0]) + 2 * fold_bits_int(bits.drop_first())
    }
}

/// Appending a bit adds it at the top weight.
pub proof fn lemma_fold_push(s: Seq<bool>, b: bool)
    ensures
        fold_bits_int(s.push(b)) == fold_bits_int(s) + pow2(s.len()) * bit_int(b),
    decreases s.len(),
{
    if s.len() == 0 {
        assert(s.push(b)[0] == b);
        assert(s.push(b).drop_first() =~= Seq::<bool>::empty());
        assert(fold_bits_int(s.push(b)) == bit_int(b) + 2 * fold_bits_int(
            s.push(b).drop_first(),
        ));
        assert(pow2(0) == 1) by {
            vstd::arithmetic::power2::lemma2_to64();
        }
    } else {
        assert(s.push(b).drop_first() =~= s.drop_first().push(b));
        assert(fold_bits_int(s.push(b)) == bit_int(s.push(b)[0]) + 2 * fold_bits_int(
            s.push(b).drop_first(),
        ));
        assert(fold_bits_int(s) == bit_int(s[0]) + 2 * fold_bits_int(s.drop_first()));
        lemma_fold_push(s.drop_first(), b);
        assert(pow2(s.len()) == 2 * pow2((s.len() - 1) as nat)) by {
            vstd::arithmetic::power2::lemma_pow2_unfold(s.len());
        }
        assert(s.push(b)[0] == s[0]);
        assert(2 * (pow2((s.len() - 1) as nat) * bit_int(b)) == pow2(s.len()) * bit_int(b))
            by (nonlinear_arith)
            requires
                pow2(s.len()) == 2 * pow2((s.len() - 1) as nat),
        ;
    }
}

/// A bit vector of length `m` folds to an integer below `2^m`.
pub proof fn lemma_fold_bits_bound(bits: Seq<bool>)
    ensures
        0 <= fold_bits_int(bits),
        fold_bits_int(bits) < pow2(bits.len()),
    decreases bits.len(),
{
    vstd::arithmetic::power2::lemma_pow2_pos(bits.len());
    if bits.len() == 0 {
    } else {
        lemma_fold_bits_bound(bits.drop_first());
        assert(pow2(bits.len()) == 2 * pow2((bits.len() - 1) as nat)) by {
            vstd::arithmetic::power2::lemma_pow2_unfold(bits.len());
        }
    }
}

/// Splitting off the bit at position `i` of the tail of a fold.
proof fn lemma_fold_skip_step(bits: Seq<bool>, i: int)
    requires
        0 <= i < bits.len(),
    ensures
        fold_bits_int(bits.skip(i)) == (if bits[i] { 1int } else { 0int }) + 2
            * fold_bits_int(bits.skip(i + 1)),
{
    assert(bits.skip(i).drop_first() =~= bits.skip(i + 1));
    assert(bits.skip(i)[0] == bits[i]);
}

/// Horner fold of a little-endian bit vector into the prime field, from the
/// most significant bit down: the result is `fold_bits_int(v) mod P`.
pub fn convert_bits_to_field(v: &[bool]) -> (r: Fp)
    ensures
        r.as_int() == fold_bits_int(v@) % (P as int),
{
    let mut res = Fp::zero();
    let mut i = v.len();
    proof {
        assert(v@.skip(i as int) =~= Seq::<bool>::empty());
    }
    while i > 0
        invariant
            i <= v.len(),
            res.as_int() == fold_bits_int(v@.skip(i as int)) % (P as int),
        decreases i,
    {
        i = i - 1;
        let doubled = res.add(res);
        let b = f2_to_fe(v[i]);
        let next = doubled.add(b);
        proof {
            let tail = fold_bits_int(v@.skip(i + 1));
            let here = fold_bits_int(v@.skip(i as int));
            lemma_fold_skip_step(v@, i as int);
            let bi: int = if v@[i as int] { 1 } else { 0 };
            // doubled = (tail % P + tail % P) % P = (2 * tail) % P
            lemma_add_mod_noop(tail, tail, P as int);
            assert(doubled.as_int() == (2 * tail) % (P as int));
            // next = ((2 * tail) % P + bi) % P = (2 * tail + bi) % P
            lemma_add_mod_noop(2 * tail, bi, P as int);
            lemma_small_mod(bi as nat, P as nat);
            assert(next.as_int() == (2 * tail + bi) % (P as int));
            assert(here == bi + 2 * tail);
        }
        res = next;
    }
    proof {
        assert(v@.skip(0) =~= v@);
    }
    res
}

/// `2^m` in the prime field, by repeated doubling of one.
pub fn power_two(m: usize) -> (r: Fp)
    ensures
        r.as_int() == pow2(m as nat) as int % (P as int),
{
    let mut res = Fp::one();
    let mut i: usize = 0;
    proof {
        assert(pow2(0nat) == 1) by {
            vstd::arithmetic::power2::lemma2_to64();
        }
        lemma_small_mod(1nat, P as nat);
    }
    while i < m
        invariant
            i <= m,
            res.as_int() == pow2(i as nat) as int % (P as int),
        decreases m - i,
    {
        let next = res.add(res);
        proof {
            let cur = pow2(i as nat) as int;
            lemma_add_mod_noop(cur, cur, P as int);
            assert(pow2((i + 1) as nat) == 2 * pow2(i as nat)) by {
                vstd::arithmetic::power2::lemma_pow2_unfold((i + 1) as nat);
            }
        }
        res = next;
        i = i + 1;
    }
    res
}

} // verus!
