//! Fisher-Yates shuffling from a jointly seeded generator.
//!
//! The swap positions are drawn once from the shared generator and the same
//! sequence of swaps is applied to the prover-side and the verifier-side half
//! of a pool, so both halves undergo one and the same permutation.

use rand::rngs::StdRng;
use vstd::prelude::*;
use crate::rng::gen_index;
use vstd::pervasive::VecAdditionalExecFns;

verus! {

/// The swap positions a Fisher-Yates pass over `len` elements consumes: entry
/// `k` is the partner swapped with position `len - 1 - k`.
pub open spec fn swap_indices_wf(idx: Seq<usize>, len: int) -> bool {
    &&& idx.len() == (if len == 0 {
        0int
    } else {
        len - 1
    })
    &&& forall|k: int| 0 <= k < idx.len() ==> (#[trigger] idx[k]) < len - 1 - k
}

/// Draws the swap positions of one Fisher-Yates pass from the shared
/// generator, exactly one draw per position from `len - 1` down to `1`.
pub fn swap_indices(rng: &mut StdRng, len: usize) -> (r: Vec<usize>)
    ensures
        swap_indices_wf(r@, len as int),
{
    let mut out: Vec<usize> = Vec::new();
    if len == 0 {
        return out;
    }
    let mut i: usize = len - 1;
    while i > 0
        invariant
            i < len,
            out@.len() == len - 1 - i,
            forall|k: int| 0 <= k < out@.len() ==> (#[trigger] out@[k]) < len - 1 - k,
        decreases i,
    {
        let d = gen_index(rng, i);
        out.push(d);
        i = i - 1;
    }
    out
}

/// One swap of the positions `a` and `b`.
pub open spec fn swap_step<T>(s: Seq<T>, a: int, b: int) -> Seq<T> {
    s.update(a, s[b]).update(b, s[a])
}

/// The sequence after the Fisher-Yates swaps `k..` have been applied: swap
/// `k` exchanges the positions `idx[k]` and `len - 1 - k`.
pub open spec fn shuffle_rec<T>(s: Seq<T>, idx: Seq<usize>, k: int) -> Seq<T>
    decreases idx.len() - k,
{
    if k < 0 || k >= idx.len() {
        s
    } else {
        shuffle_rec(swap_step(s, idx[k] as int, s.len() - 1 - k), idx, k + 1)
    }
}

/// The sequence after a full Fisher-Yates pass with the given swap positions.
pub open spec fn shuffle_spec<T>(s: Seq<T>, idx: Seq<usize>) -> Seq<T> {
    shuffle_rec(s, idx, 0)
}

/// Shuffling keeps the length.
pub proof fn lemma_shuffle_rec_len<T>(s: Seq<T>, idx: Seq<usize>, k: int)
    requires
        swap_indices_wf(idx, s.len() as int),
    ensures
        shuffle_rec(s, idx, k).len() == s.len(),
    decreases idx.len() - k,
{
    if k < 0 || k >= idx.len() {
    } else {
        let s1 = swap_step(s, idx[k] as int, s.len() - 1 - k);
        assert(shuffle_rec(s, idx, k) == shuffle_rec(s1, idx, k + 1));
        lemma_shuffle_rec_len(s1, idx, k + 1);
        assert(s1.len() == s.len());
    }
}

/// Position `q` of the two shuffled halves holds elements that came from one
/// and the same input position.
pub open spec fn common_origin<A, B>(ss: Seq<A>, tt: Seq<B>, s: Seq<A>, t: Seq<B>, q: int) -> bool {
    exists|j: int| 0 <= j < s.len() && ss[q] == (#[trigger] s[j]) && tt[q] == t[j]
}

/// Applying the same swaps to two aligned sequences keeps them aligned: every
/// output position of the one holds the element that came from the same input
/// position as the element at that output position of the other.  This is the
/// shuffle-determinism guarantee of the jointly seeded permutation: the
/// prover-side and verifier-side pools are rearranged identically.
pub proof fn lemma_shuffle_aligned<A, B>(s: Seq<A>, t: Seq<B>, idx: Seq<usize>, k: int)
    requires
        s.len() == t.len(),
        swap_indices_wf(idx, s.len() as int),
    ensures
        forall|q: int|
            0 <= q < s.len() ==> #[trigger] common_origin(
                shuffle_rec(s, idx, k),
                shuffle_rec(t, idx, k),
                s,
                t,
                q,
            ),
    decreases idx.len() - k,
{
    if k < 0 || k >= idx.len() {
        assert forall|q: int| 0 <= q < s.len() implies #[trigger] common_origin(
            shuffle_rec(s, idx, k),
            shuffle_rec(t, idx, k),
            s,
            t,
            q,
        ) by {
            assert(shuffle_rec(s, idx, k)[q] == s[q] && shuffle_rec(t, idx, k)[q] == t[q]);
        }
    } else {
        let a = idx[k] as int;
        let b = s.len() - 1 - k;
        let s1 = swap_step(s, a, b);
        let t1 = swap_step(t, a, b);
        assert(s1.len() == s.len() && t1.len() == t.len());
        lemma_shuffle_aligned(s1, t1, idx, k + 1);
        assert forall|q: int| 0 <= q < s.len() implies #[trigger] common_origin(
            shuffle_rec(s, idx, k),
            shuffle_rec(t, idx, k),
            s,
            t,
            q,
        ) by {
            assert(shuffle_rec(s, idx, k) == shuffle_rec(s1, idx, k + 1));
            assert(shuffle_rec(t, idx, k) == shuffle_rec(t1, idx, k + 1));
            assert(common_origin(shuffle_rec(s1, idx, k + 1), shuffle_rec(t1, idx, k + 1), s1, t1, q));
            let j1 = choose|j: int|
                0 <= j < s1.len() && shuffle_rec(s1, idx, k + 1)[q] == (#[trigger] s1[j])
                    && shuffle_rec(t1, idx, k + 1)[q] == t1[j];
            // the swap itself is positional: position j1 of the swapped pair
            // came from one common position of the two inputs
            if j1 == a {
                assert(s1[j1] == s[b] && t1[j1] == t[b]);
            } else if j1 == b {
                assert(s1[j1] == s[a] && t1[j1] == t[a]);
            } else {
                assert(s1[j1] == s[j1] && t1[j1] == t[j1]);
            }
        }
    }
}

/// Shuffling both halves of a pool with the same swap positions preserves any
/// position-wise relation between them.
pub proof fn lemma_shuffle_preserves_rel<A, B>(
    s: Seq<A>,
    t: Seq<B>,
    idx: Seq<usize>,
    rel: spec_fn(A, B) -> bool,
)
    requires
        s.len() == t.len(),
        swap_indices_wf(idx, s.len() as int),
        forall|i: int| 0 <= i < s.len() ==> #[trigger] rel(s[i], t[i]),
    ensures
        shuffle_spec(s, idx).len() == s.len(),
        shuffle_spec(t, idx).len() == t.len(),
        forall|i: int|
            0 <= i < s.len() ==> #[trigger] rel(shuffle_spec(s, idx)[i], shuffle_spec(t, idx)[i]),
{
    lemma_shuffle_rec_len(s, idx, 0);
    lemma_shuffle_rec_len(t, idx, 0);
    lemma_shuffle_aligned(s, t, idx, 0);
    assert forall|i: int| 0 <= i < s.len() implies #[trigger] rel(
        shuffle_spec(s, idx)[i],
        shuffle_spec(t, idx)[i],
    ) by {
        assert(common_origin(shuffle_rec(s, idx, 0), shuffle_rec(t, idx, 0), s, t, i));
        let j = choose|j: int|
            0 <= j < s.len() && shuffle_rec(s, idx, 0)[i] == (#[trigger] s[j]) && shuffle_rec(
                t,
                idx,
                0,
            )[i] == t[j];
        assert(rel(s[j], t[j]));
    }
}

/// Exchanges the elements at two distinct positions.
fn swap_elements<T>(v: &mut Vec<T>, a: usize, b: usize)
    requires
        a < b,
        b < old(v)@.len(),
    ensures
        final(v)@ == swap_step(old(v)@, a as int, b as int),
{
    let last = v.len() - 1;
    if b == last {
        let mut tmp = v.pop().unwrap();
        v.set_and_swap(a, &mut tmp);
        v.push(tmp);
        proof {
            assert(v@ =~= swap_step(old(v)@, a as int, b as int));
        }
    } else {
        let mut tmp = v.pop().unwrap();
        v.set_and_swap(a, &mut tmp);
        v.set_and_swap(b, &mut tmp);
        v.set_and_swap(a, &mut tmp);
        v.push(tmp);
        proof {
            assert(v@ =~= swap_step(old(v)@, a as int, b as int));
        }
    }
}

/// In-place Fisher-Yates pass over one half of a pool, applying the given
/// swap positions; deterministic in them, so both halves of a pool shuffled
/// with the same positions undergo the same permutation.
pub fn generate_permutation<T>(idx: &Vec<usize>, v: &mut Vec<T>)
    requires
        swap_indices_wf(idx@, old(v)@.len() as int),
    ensures
        final(v)@ == shuffle_spec(old(v)@, idx@),
        final(v)@.len() == old(v)@.len(),
{
    let ghost orig = v@;
    let len = v.len();
    if len == 0 {
        return ;
    }
    let mut k: usize = 0;
    let end = len - 1;
    while k < end
        invariant
            k <= end,
            end == len - 1,
            len == v@.len(),
            len == orig.len(),
            swap_indices_wf(idx@, len as int),
            shuffle_spec(orig, idx@) == shuffle_rec(v@, idx@, k as int),
        decreases end - k,
    {
        let a = idx[k];
        let b = len - 1 - k;
        swap_elements(v, a, b);
        k = k + 1;
    }
    proof {
        assert(shuffle_rec(v@, idx@, k as int) == v@);
    }
}

} // verus!
