//! Display order: lists are shown sorted by a key, and what compares equal
//! stays in the order it is kept in.
use vstd::prelude::*;

verus! {

/// Whether the entry kept at `a` is shown before the one kept at `b`.
pub open spec fn shown_before(keys: Seq<(u64, u64)>, a: int, b: int) -> bool {
    ||| keys[a].0 < keys[b].0
    ||| keys[a].0 == keys[b].0 && keys[a].1 < keys[b].1
    ||| keys[a] == keys[b] && a < b
}

/// `order` lists the positions of all entries, each once, in the order in which
/// they are shown.
pub open spec fn is_display_order(order: Seq<usize>, keys: Seq<(u64, u64)>) -> bool {
    &&& order.len() == keys.len()
    &&& forall|i: int| 0 <= i < order.len() ==> 0 <= #[trigger] order[i] < keys.len()
    &&& forall|i: int, j: int|
        0 <= i < j < order.len() ==> shown_before(
            keys,
            #[trigger] order[i] as int,
            #[trigger] order[j] as int,
        )
}

/// Whether the entry kept at `a` is shown before the one kept at `b`.
fn comes_before(keys: &Vec<(u64, u64)>, a: usize, b: usize) -> (yes: bool)
    requires
        a < keys@.len(),
        b < keys@.len(),
    ensures
        yes == shown_before(keys@, a as int, b as int),
{
    let x: (u64, u64) = keys[a];
    let y: (u64, u64) = keys[b];
    x.0 < y.0 || (x.0 == y.0 && (x.1 < y.1 || (x.1 == y.1 && a < b)))
}

/// The positions of all entries in the order in which they are shown.
pub fn display_order(keys: &Vec<(u64, u64)>) -> (order: Vec<usize>)
    ensures
        is_display_order(order@, keys@),
{
    let mut order: Vec<usize> = Vec::new();
    let mut next: usize = 0;
    while next < keys.len()
        invariant
            next <= keys@.len(),
            order@.len() == next,
            forall|i: int| 0 <= i < order@.len() ==> 0 <= #[trigger] order@[i] < next,
            forall|i: int, j: int|
                0 <= i < j < order@.len() ==> shown_before(
                    keys@,
                    #[trigger] order@[i] as int,
                    #[trigger] order@[j] as int,
                ),
        decreases keys.len() - next,
    {
        let mut at: usize = order.len();
        while at > 0 && comes_before(keys, next, order[at - 1])
            invariant
                next < keys@.len(),
                at <= order@.len() == next,
                forall|i: int| 0 <= i < order@.len() ==> 0 <= #[trigger] order@[i] < next,
                forall|i: int, j: int|
                    0 <= i < j < order@.len() ==> shown_before(
                        keys@,
                        #[trigger] order@[i] as int,
                        #[trigger] order@[j] as int,
                    ),
                forall|i: int|
                    at <= i < order@.len() ==> shown_before(
                        keys@,
                        next as int,
                        #[trigger] order@[i] as int,
                    ),
            decreases at,
        {
            at -= 1;
        }
        let ghost before = order@;
        proof {
            assert forall|i: int| 0 <= i < at implies shown_before(
                keys@,
                #[trigger] before[i] as int,
                next as int,
            ) by {
                if i < at - 1 {
                    assert(shown_before(keys@, before[i] as int, before[at - 1] as int));
                }
                assert(shown_before(keys@, before[at - 1] as int, next as int));
            }
        }
        order.insert(at, next);
        proof {
            assert forall|i: int, j: int| 0 <= i < j < order@.len() implies shown_before(
                keys@,
                #[trigger] order@[i] as int,
                #[trigger] order@[j] as int,
            ) by {
                let a = if i < at {
                    i
                } else {
                    i - 1
                };
                let b = if j < at {
                    j
                } else {
                    j - 1
                };
                if i != at {
                    assert(order@[i] == before[a]);
                }
                if j != at {
                    assert(order@[j] == before[b]);
                }
            }
        }
        next += 1;
    }
    order
}

/// Every entry is shown.
pub proof fn every_entry_is_shown(order: Seq<usize>, keys: Seq<(u64, u64)>, entry: int)
    requires
        is_display_order(order, keys),
        0 <= entry < keys.len(),
    ensures
        exists|i: int| 0 <= i < order.len() && order[i] == entry,
{
    let shown = order.map_values(|p: usize| p as int);
    let all = vstd::set_lib::set_int_range(0, keys.len() as int);
    vstd::set_lib::lemma_int_range(0, keys.len() as int);
    assert(shown.no_duplicates()) by {
        assert forall|i: int, j: int|
            0 <= i < shown.len() && 0 <= j < shown.len() && i != j implies shown[i] != shown[j] by {
            if i < j {
                assert(shown_before(keys, order[i] as int, order[j] as int));
            } else {
                assert(shown_before(keys, order[j] as int, order[i] as int));
            }
        }
    }
    shown.unique_seq_to_set();
    assert(shown.to_set().subset_of(all)) by {
        assert forall|x: int| shown.to_set().contains(x) implies all.contains(x) by {
            let i = choose|i: int| 0 <= i < shown.len() && shown[i] == x;
            assert(0 <= order[i] < keys.len());
        }
    }
    vstd::set_lib::lemma_subset_equality(shown.to_set(), all);
    assert(shown.to_set().contains(entry));
    let i = choose|i: int| 0 <= i < shown.len() && shown[i] == entry;
    assert(order[i] == entry);
}

/// There is one display order: the keys alone decide it.
pub proof fn display_order_is_unique(a: Seq<usize>, b: Seq<usize>, keys: Seq<(u64, u64)>)
    requires
        is_display_order(a, keys),
        is_display_order(b, keys),
    ensures
        a == b,
{
    assert forall|i: int| 0 <= i < a.len() implies a[i] == b[i] by {
        lemma_same_place(a, b, keys, i);
    }
    assert(a =~= b);
}

proof fn lemma_same_place(a: Seq<usize>, b: Seq<usize>, keys: Seq<(u64, u64)>, i: int)
    requires
        is_display_order(a, keys),
        is_display_order(b, keys),
        0 <= i < a.len(),
    ensures
        a[i] == b[i],
    decreases i,
{
    assert forall|k: int| 0 <= k < i implies a[k] == b[k] by {
        lemma_same_place(a, b, keys, k);
    }
    every_entry_is_shown(b, keys, a[i] as int);
    every_entry_is_shown(a, keys, b[i] as int);
    let p = choose|p: int| 0 <= p < b.len() && b[p] == a[i];
    let q = choose|q: int| 0 <= q < a.len() && a[q] == b[i];
    if p < i {
        assert(a[p] == b[p]);
        assert(shown_before(keys, a[p] as int, a[i] as int));
    } else if q < i {
        assert(a[q] == b[q]);
        assert(shown_before(keys, b[q] as int, b[i] as int));
    } else if p > i && q > i {
        assert(shown_before(keys, b[i] as int, b[p] as int));
        assert(shown_before(keys, a[i] as int, a[q] as int));
    }
}

} // verus!
