//! Facts about filtered sequences, on which the listing of differing pixels
//! rests.

use vstd::prelude::*;

verus! {

/// Filtering by `p` and then by `q` is filtering by `q` alone, where `q`
/// holds of no element of the sequence of which `p` does not hold.
pub proof fn lemma_filter_twice<A>(s: Seq<A>, p: spec_fn(A) -> bool, q: spec_fn(A) -> bool)
    requires
        forall|i: int| 0 <= i < s.len() && q(#[trigger] s[i]) ==> p(s[i]),
    ensures
        s.filter(p).filter(q) == s.filter(q),
    decreases s.len(),
{
    reveal(Seq::filter);
    if s.len() > 0 {
        let front = s.drop_last();
        let last = s.last();
        assert forall|i: int| 0 <= i < front.len() && q(#[trigger] front[i]) implies p(
            front[i],
        ) by {
            assert(front[i] == s[i]);
        }
        lemma_filter_twice(front, p, q);
        if p(last) {
            Seq::lemma_filter_push(front.filter(p), last, q);
        } else {
            assert(!q(last)) by {
                assert(last == s[s.len() - 1]);
            }
        }
    } else {
        assert(s.filter(p) =~= s);
    }
}

/// Two tests that agree on every element of a sequence filter it alike.
pub proof fn lemma_filter_agree<A>(s: Seq<A>, p: spec_fn(A) -> bool, q: spec_fn(A) -> bool)
    requires
        forall|i: int| 0 <= i < s.len() ==> p(#[trigger] s[i]) == q(s[i]),
    ensures
        s.filter(p) == s.filter(q),
    decreases s.len(),
{
    reveal(Seq::filter);
    if s.len() > 0 {
        let front = s.drop_last();
        assert forall|i: int| 0 <= i < front.len() implies p(#[trigger] front[i]) == q(
            front[i],
        ) by {
            assert(front[i] == s[i]);
        }
        lemma_filter_agree(front, p, q);
        assert(s.last() == s[s.len() - 1]);
    }
}

/// A test that holds of no element of a sequence filters it to nothing.
pub proof fn lemma_filter_none<A>(s: Seq<A>, p: spec_fn(A) -> bool)
    requires
        forall|i: int| 0 <= i < s.len() ==> !p(#[trigger] s[i]),
    ensures
        s.filter(p) == Seq::<A>::empty(),
    decreases s.len(),
{
    reveal(Seq::filter);
    if s.len() > 0 {
        let front = s.drop_last();
        assert forall|i: int| 0 <= i < front.len() implies !p(#[trigger] front[i]) by {
            assert(front[i] == s[i]);
        }
        lemma_filter_none(front, p);
        assert(s.last() == s[s.len() - 1]);
    } else {
        assert(s =~= Seq::<A>::empty());
    }
}

/// An element is in a filtered sequence exactly if it is in the sequence and
/// passes the test.
pub proof fn lemma_filter_member<A>(s: Seq<A>, p: spec_fn(A) -> bool, x: A)
    ensures
        s.filter(p).contains(x) <==> (s.contains(x) && p(x)),
{
    let f = s.filter(p);
    if f.contains(x) {
        let k = choose|k: int| 0 <= k < f.len() && f[k] == x;
        s.lemma_filter_pred(p, k);
        s.lemma_filter_contains_rev(p, x);
    }
    if s.contains(x) && p(x) {
        let i = choose|i: int| 0 <= i < s.len() && s[i] == x;
        s.lemma_filter_contains(p, i);
    }
}

} // verus!
