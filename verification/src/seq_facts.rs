//! Facts about filtering a sequence whose matching elements form its tail.

use vstd::prelude::*;

verus! {

/// A filter that rejects every element leaves nothing.
pub proof fn lemma_filter_rejects_all<A>(s: Seq<A>, keep: spec_fn(A) -> bool)
    requires
        forall|i: int| 0 <= i < s.len() ==> !keep(#[trigger] s[i]),
    ensures
        s.filter(keep) == Seq::<A>::empty(),
    decreases s.len(),
{
    reveal(Seq::filter);
    if s.len() > 0 {
        let shorter = s.drop_last();
        assert forall|i: int| 0 <= i < shorter.len() implies !keep(#[trigger] shorter[i]) by {
            assert(shorter[i] == s[i]);
        }
        lemma_filter_rejects_all(shorter, keep);
        assert(!keep(s[s.len() - 1]));
    } else {
        assert(s =~= Seq::<A>::empty());
    }
}

/// A filter that accepts every element changes nothing.
pub proof fn lemma_filter_accepts_all<A>(s: Seq<A>, keep: spec_fn(A) -> bool)
    requires
        forall|i: int| 0 <= i < s.len() ==> keep(#[trigger] s[i]),
    ensures
        s.filter(keep) == s,
    decreases s.len(),
{
    reveal(Seq::filter);
    if s.len() > 0 {
        let shorter = s.drop_last();
        assert forall|i: int| 0 <= i < shorter.len() implies keep(#[trigger] shorter[i]) by {
            assert(shorter[i] == s[i]);
        }
        lemma_filter_accepts_all(shorter, keep);
        assert(keep(s[s.len() - 1]));
        assert(shorter.push(s.last()) =~= s);
    }
}

/// Where a filter rejects the first `split` elements and accepts the rest, what
/// it leaves is the sequence from `split` on.
pub proof fn lemma_filter_is_tail<A>(s: Seq<A>, keep: spec_fn(A) -> bool, split: int)
    requires
        0 <= split <= s.len(),
        forall|i: int| 0 <= i < split ==> !keep(#[trigger] s[i]),
        forall|i: int| split <= i < s.len() ==> keep(#[trigger] s[i]),
    ensures
        s.filter(keep) == s.skip(split),
{
    let head = s.subrange(0, split);
    let tail = s.subrange(split, s.len() as int);
    assert(tail =~= s.skip(split));
    assert forall|i: int| 0 <= i < head.len() implies !keep(#[trigger] head[i]) by {
        assert(head[i] == s[i]);
    }
    assert forall|i: int| 0 <= i < tail.len() implies keep(#[trigger] tail[i]) by {
        assert(tail[i] == s[i + split]);
    }
    lemma_filter_rejects_all(head, keep);
    lemma_filter_accepts_all(tail, keep);
    Seq::filter_distributes_over_add(head, tail, keep);
    assert(head + tail =~= s);
    assert(Seq::<A>::empty() + tail =~= tail);
}

} // verus!
