//! Ordering rows by a key: a stable order of the places of a list of keys.

use vstd::prelude::*;

verus! {

/// The place `a` comes before the place `b`: its key is smaller, or the keys
/// are equal and it stands first.
pub open spec fn comes_before(keys: Seq<i128>, a: int, b: int) -> bool {
    keys[a] < keys[b] || (keys[a] == keys[b] && a < b)
}

/// `order` lists places of `keys`, each before the next by key, and by place
/// among equal keys.
pub open spec fn is_ascending(keys: Seq<i128>, order: Seq<usize>) -> bool {
    &&& forall|i: int| 0 <= i < order.len() ==> (#[trigger] order[i]) < keys.len()
    &&& forall|i: int, j: int|
        0 <= i < j < order.len() ==> comes_before(
            keys,
            (#[trigger] order[i]) as int,
            (#[trigger] order[j]) as int,
        )
}

/// `order` is the stable ascending order of `keys`: it lists every place
/// once, smaller keys first, and equal keys in the order in which they stand.
pub open spec fn is_stable_order(keys: Seq<i128>, order: Seq<usize>) -> bool {
    order.len() == keys.len() && is_ascending(keys, order)
}

/// The stable ascending order of a list of keys.
pub fn stable_order(keys: &Vec<i128>) -> (order: Vec<usize>)
    ensures
        is_stable_order(keys@, order@),
{
    let mut order: Vec<usize> = Vec::new();
    let mut next: usize = 0;
    while next < keys.len()
        invariant
            next <= keys@.len(),
            order@.len() == next,
            is_ascending(keys@, order@),
            forall|i: int| 0 <= i < order@.len() ==> (#[trigger] order@[i]) < next,
        decreases keys@.len() - next,
    {
        let mut at: usize = order.len();
        while at > 0 && keys[order[at - 1]] > keys[next]
            invariant
                at <= order@.len(),
                next < keys@.len(),
                forall|i: int| 0 <= i < order@.len() ==> (#[trigger] order@[i]) < next,
                forall|j: int|
                    at <= j < order@.len() ==> keys@[(#[trigger] order@[j]) as int] > keys@[next as int],
            decreases at,
        {
            at -= 1;
        }
        let ghost before = order@;
        order.insert(at, next);
        proof {
            let after = order@;
            assert forall|i: int| 0 <= i < after.len() implies (#[trigger] after[i]) < next + 1 by {
                if i < at {
                    assert(after[i] == before[i]);
                } else if i > at {
                    assert(after[i] == before[i - 1]);
                }
            }
            assert forall|i: int, j: int| 0 <= i < j < after.len() implies comes_before(
                keys@,
                (#[trigger] after[i]) as int,
                (#[trigger] after[j]) as int,
            ) by {
                let a = if i < at { i } else { i - 1 };
                let b = if j < at { j } else { j - 1 };
                if i != at && j != at {
                    assert(after[i] == before[a] && after[j] == before[b]);
                    assert(comes_before(keys@, before[a] as int, before[b] as int));
                } else if j == at {
                    assert(after[i] == before[i]);
                    if i < at - 1 {
                        assert(comes_before(keys@, before[i] as int, before[at - 1] as int));
                    }
                    assert(keys@[before[at - 1] as int] <= keys@[next as int]);
                    assert(before[i] < next);
                } else {
                    assert(after[j] == before[j - 1]);
                    assert(keys@[before[j - 1] as int] > keys@[next as int]);
                }
            }
        }
        next += 1;
    }
    order
}

/// A stable order lists every place: none is left out.
pub proof fn lemma_stable_order_lists_all(keys: Seq<i128>, order: Seq<usize>, place: int)
    requires
        is_stable_order(keys, order),
        0 <= place < keys.len(),
    ensures
        exists|i: int| 0 <= i < order.len() && #[trigger] order[i] == place,
{
    let listed = order.map_values(|p: usize| p as int);
    assert forall|i: int, j: int| 0 <= i < j < listed.len() implies listed[i] != listed[j] by {
        assert(comes_before(keys, order[i] as int, order[j] as int));
    }
    assert(listed.no_duplicates());
    let all = Set::new(|p: int| 0 <= p < keys.len());
    assert(listed.to_set().subset_of(all)) by {
        assert forall|p: int| listed.to_set().contains(p) implies all.contains(p) by {
            let i = choose|i: int| 0 <= i < listed.len() && listed[i] == p;
            assert(order[i] < keys.len());
        }
    }
    listed.unique_seq_to_set();
    vstd::set_lib::lemma_int_range(0, keys.len() as int);
    assert(all =~= vstd::set_lib::set_int_range(0, keys.len() as int));
    vstd::set_lib::lemma_subset_equality(listed.to_set(), all);
    assert(listed.to_set().contains(place));
    let i = choose|i: int| 0 <= i < listed.len() && listed[i] == place;
    assert(order[i] == place);
}

} // verus!
