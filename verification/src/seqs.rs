//! Facts about filtered sequences that the queries' proofs share.

use vstd::prelude::*;

verus! {

/// Filtering one element more keeps what was kept, and the new element too
/// where it passes.
pub proof fn lemma_filter_take_step<A>(s: Seq<A>, keep: spec_fn(A) -> bool, i: int)
    requires
        0 <= i < s.len(),
    ensures
        s.take(i + 1).filter(keep) == if keep(s[i]) {
            s.take(i).filter(keep).push(s[i])
        } else {
            s.take(i).filter(keep)
        },
{
    reveal(Seq::filter);
    assert(s.take(i + 1).drop_last() == s.take(i));
}

/// Nothing is kept of nothing.
pub proof fn lemma_filter_empty<A>(s: Seq<A>, keep: spec_fn(A) -> bool)
    requires
        s.len() == 0,
    ensures
        s.filter(keep) == Seq::<A>::empty(),
{
    reveal(Seq::filter);
}

/// Putting one element into a sequence puts it into the filtered sequence
/// where it passes, and changes nothing else.
pub proof fn lemma_filter_insert<A>(s: Seq<A>, keep: spec_fn(A) -> bool, at: int, x: A)
    requires
        0 <= at <= s.len(),
    ensures
        s.insert(at, x).filter(keep) == if keep(x) {
            s.take(at).filter(keep).push(x) + s.skip(at).filter(keep)
        } else {
            s.filter(keep)
        },
        s.filter(keep) == s.take(at).filter(keep) + s.skip(at).filter(keep),
        s.insert(at, x).filter(keep).len() == s.filter(keep).len() + if keep(x) {
            1int
        } else {
            0int
        },
{
    let head = s.take(at);
    let tail = s.skip(at);
    assert(s == head + tail);
    assert(s.insert(at, x) == head.push(x) + tail);
    Seq::filter_distributes_over_add(head, tail, keep);
    Seq::filter_distributes_over_add(head.push(x), tail, keep);
    assert(head.push(x).filter(keep) == if keep(x) {
        head.filter(keep).push(x)
    } else {
        head.filter(keep)
    }) by {
        reveal(Seq::filter);
        assert(head.push(x).drop_last() == head);
    }
}

/// Filtering by two tests at once is filtering by one and then by the other.
pub proof fn lemma_filter_both<A>(s: Seq<A>, first: spec_fn(A) -> bool, second: spec_fn(A) -> bool)
    ensures
        s.filter(|x: A| first(x) && second(x)) == s.filter(first).filter(second),
    decreases s.len(),
{
    reveal(Seq::filter);
    let both = |x: A| first(x) && second(x);
    if s.len() > 0 {
        lemma_filter_both(s.drop_last(), first, second);
        if first(s.last()) {
            let kept = s.drop_last().filter(first);
            assert(kept.push(s.last()).drop_last() == kept);
        }
    }
}

/// Two tests that agree on every element keep the same elements.
pub proof fn lemma_filter_same<A>(s: Seq<A>, first: spec_fn(A) -> bool, second: spec_fn(A) -> bool)
    requires
        forall|i: int| 0 <= i < s.len() ==> first(#[trigger] s[i]) == second(s[i]),
    ensures
        s.filter(first) == s.filter(second),
    decreases s.len(),
{
    reveal(Seq::filter);
    if s.len() > 0 {
        let rest = s.drop_last();
        assert forall|i: int| 0 <= i < rest.len() implies first(#[trigger] rest[i]) == second(
            rest[i],
        ) by {
            assert(rest[i] == s[i]);
        }
        lemma_filter_same(rest, first, second);
    }
}

/// Nothing is kept where no element passes.
pub proof fn lemma_filter_none<A>(s: Seq<A>, keep: spec_fn(A) -> bool)
    requires
        forall|i: int| 0 <= i < s.len() ==> !keep(#[trigger] s[i]),
    ensures
        s.filter(keep).len() == 0,
    decreases s.len(),
{
    reveal(Seq::filter);
    if s.len() > 0 {
        let rest = s.drop_last();
        assert forall|i: int| 0 <= i < rest.len() implies !keep(#[trigger] rest[i]) by {
            assert(rest[i] == s[i]);
        }
        lemma_filter_none(rest, keep);
    }
}

/// Everything is kept where every element passes.
pub proof fn lemma_filter_all<A>(s: Seq<A>, keep: spec_fn(A) -> bool)
    requires
        forall|i: int| 0 <= i < s.len() ==> keep(#[trigger] s[i]),
    ensures
        s.filter(keep) == s,
    decreases s.len(),
{
    reveal(Seq::filter);
    if s.len() > 0 {
        let rest = s.drop_last();
        assert forall|i: int| 0 <= i < rest.len() implies keep(#[trigger] rest[i]) by {
            assert(rest[i] == s[i]);
        }
        lemma_filter_all(rest, keep);
        assert(rest.push(s.last()) == s);
    }
}

/// The last element that passes is the last element kept.
pub proof fn lemma_filter_last<A>(s: Seq<A>, keep: spec_fn(A) -> bool, at: int)
    requires
        0 <= at < s.len(),
        keep(s[at]),
        forall|k: int| at < k < s.len() ==> !keep(#[trigger] s[k]),
    ensures
        s.filter(keep).len() > 0,
        s.filter(keep).last() == s[at],
    decreases s.len(),
{
    reveal(Seq::filter);
    if at < s.len() - 1 {
        let rest = s.drop_last();
        assert forall|k: int| at < k < rest.len() implies !keep(#[trigger] rest[k]) by {
            assert(rest[k] == s[k]);
        }
        lemma_filter_last(rest, keep, at);
    }
}

/// Where one element fails a test that every other passes, what is kept is
/// the sequence without that element.
pub proof fn lemma_remove_is_filter<A>(s: Seq<A>, keep: spec_fn(A) -> bool, at: int)
    requires
        0 <= at < s.len(),
        !keep(s[at]),
        forall|k: int| 0 <= k < s.len() && k != at ==> keep(#[trigger] s[k]),
    ensures
        s.remove(at) == s.filter(keep),
{
    let rest = s.remove(at);
    assert forall|k: int| 0 <= k < rest.len() implies keep(#[trigger] rest[k]) by {
        if k < at {
            assert(rest[k] == s[k]);
        } else {
            assert(rest[k] == s[k + 1]);
        }
    }
    assert(s == rest.insert(at, s[at]));
    lemma_filter_insert(rest, keep, at, s[at]);
    lemma_filter_all(rest, keep);
}

/// Something is kept where some element passes.
pub proof fn lemma_filter_some<A>(s: Seq<A>, keep: spec_fn(A) -> bool, at: int)
    requires
        0 <= at < s.len(),
        keep(s[at]),
    ensures
        s.filter(keep).len() > 0,
    decreases s.len(),
{
    reveal(Seq::filter);
    if at < s.len() - 1 {
        let rest = s.drop_last();
        assert(rest[at] == s[at]);
        lemma_filter_some(rest, keep, at);
    }
}

} // verus!
