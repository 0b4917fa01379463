//! Lexicographic sort keys and an insertion sort over keyed items.

use vstd::prelude::*;

verus! {

/// A lexicographic key of up to four integer components.
#[derive(Clone, Copy, Debug, PartialEq, Eq, Structural)]
pub struct SortKey {
    pub a: i128,
    pub b: i128,
    pub c: i128,
    pub d: i128,
}

/// `x` does not come after `y`.
pub open spec fn key_le(x: SortKey, y: SortKey) -> bool {
    x.a < y.a || (x.a == y.a && (x.b < y.b || (x.b == y.b && (x.c < y.c || (x.c == y.c && x.d
        <= y.d)))))
}

/// `x` comes strictly before `y`.
pub open spec fn key_lt(x: SortKey, y: SortKey) -> bool {
    key_le(x, y) && x != y
}

/// Keyed items in non-decreasing key order.
pub open spec fn keyed_sorted<T>(items: Seq<(SortKey, T)>) -> bool {
    forall|i: int, j: int| 0 <= i < j < items.len() ==> key_le(#[trigger] items[i].0, #[trigger] items[j].0)
}

/// `x` comes strictly before `y`.
pub fn key_less(x: &SortKey, y: &SortKey) -> (less: bool)
    ensures
        less == key_lt(*x, *y),
{
    if x.a != y.a {
        x.a < y.a
    } else if x.b != y.b {
        x.b < y.b
    } else if x.c != y.c {
        x.c < y.c
    } else {
        x.d < y.d
    }
}

/// Sorts keyed items by key; the result holds exactly the given items.
pub fn sort_keyed<T>(items: Vec<(SortKey, T)>) -> (sorted: Vec<(SortKey, T)>)
    ensures
        sorted@.len() == items@.len(),
        keyed_sorted(sorted@),
        forall|x: (SortKey, T)| #![trigger sorted@.contains(x)] sorted@.contains(x) <==> items@.contains(x),
        sorted@.to_multiset() == items@.to_multiset(),
{
    broadcast use vstd::seq_lib::group_to_multiset_ensures, vstd::multiset::group_multiset_axioms;

    let mut rest = items;
    let mut sorted: Vec<(SortKey, T)> = Vec::new();
    while rest.len() > 0
        invariant
            sorted@.len() + rest@.len() == items@.len(),
            keyed_sorted(sorted@),
            forall|x: (SortKey, T)|
                #![trigger items@.contains(x)]
                items@.contains(x) <==> (sorted@.contains(x) || rest@.contains(x)),
            sorted@.to_multiset().add(rest@.to_multiset()) == items@.to_multiset(),
        decreases rest@.len(),
    {
        let ghost before_rest = rest@;
        let item = rest.pop().unwrap();
        proof {
            assert(before_rest == rest@.push(item));
        }
        let mut p: usize = 0;
        while p < sorted.len() && !key_less(&item.0, &sorted[p].0)
            invariant
                0 <= p <= sorted@.len(),
                forall|q: int| 0 <= q < p ==> key_le(#[trigger] sorted@[q].0, item.0),
            decreases sorted@.len() - p,
        {
            p = p + 1;
        }
        let ghost before = sorted@;
        sorted.insert(p, item);
        proof {
            vstd::seq_lib::to_multiset_insert(before, p as int, item);
            vstd::seq_lib::to_multiset_build(rest@, item);
            assert(sorted@.to_multiset().add(rest@.to_multiset()) =~= before.to_multiset().add(before_rest.to_multiset()));
            assert forall|a: int, b: int| 0 <= a < b < sorted@.len() implies key_le(
                #[trigger] sorted@[a].0,
                #[trigger] sorted@[b].0,
            ) by {
                if b < p {
                    assert(sorted@[a] == before[a] && sorted@[b] == before[b]);
                } else if b == p {
                    assert(sorted@[a] == before[a]);
                } else if a < p {
                    assert(sorted@[a] == before[a] && sorted@[b] == before[b - 1]);
                    assert(key_lt(item.0, before[p as int].0));
                } else if a == p {
                    assert(sorted@[b] == before[b - 1]);
                    assert(key_lt(item.0, before[p as int].0));
                } else {
                    assert(sorted@[a] == before[a - 1] && sorted@[b] == before[b - 1]);
                }
            }
            assert forall|x: (SortKey, T)| #![trigger items@.contains(x)] items@.contains(x) <==> (
            sorted@.contains(x) || rest@.contains(x)) by {
                if before.contains(x) {
                    let q = choose|q: int| 0 <= q < before.len() && #[trigger] before[q] == x;
                    if q < p {
                        assert(sorted@[q] == x);
                    } else {
                        assert(sorted@[q + 1] == x);
                    }
                }
                if before_rest.contains(x) {
                    let q = choose|q: int| 0 <= q < before_rest.len() && #[trigger] before_rest[q] == x;
                    if q < rest@.len() {
                        assert(rest@[q] == x);
                    } else {
                        assert(sorted@[p as int] == x);
                    }
                }
                if sorted@.contains(x) {
                    let q = choose|q: int| 0 <= q < sorted@.len() && #[trigger] sorted@[q] == x;
                    if q < p {
                        assert(before[q] == x);
                        assert(before.contains(x));
                    } else if q > p {
                        assert(before[q - 1] == x);
                        assert(before.contains(x));
                    } else {
                        assert(before_rest[before_rest.len() - 1] == x);
                        assert(before_rest.contains(x));
                    }
                }
                if rest@.contains(x) {
                    let q = choose|q: int| 0 <= q < rest@.len() && #[trigger] rest@[q] == x;
                    assert(before_rest[q] == x);
                    assert(before_rest.contains(x));
                }
            }
        }
    }
    proof {
        assert(rest@.to_multiset() =~= vstd::multiset::Multiset::empty());
        assert(sorted@.to_multiset() =~= items@.to_multiset());
    }
    sorted
}

/// Inserts `value` into a strictly increasing vector unless already present.
pub fn insert_unique_sorted(values: &mut Vec<u64>, value: u64)
    requires
        forall|i: int, j: int| 0 <= i < j < old(values)@.len() ==> #[trigger] old(values)@[i] < #[trigger] old(values)@[j],
    ensures
        forall|i: int, j: int| 0 <= i < j < final(values)@.len() ==> #[trigger] final(values)@[i] < #[trigger] final(values)@[j],
        forall|x: u64| #![trigger final(values)@.contains(x)] final(values)@.contains(x) <==> (old(values)@.contains(x) || x == value),
{
    let mut p: usize = 0;
    while p < values.len() && values[p] < value
        invariant
            0 <= p <= values@.len(),
            values@ == old(values)@,
            forall|q: int| 0 <= q < p ==> #[trigger] values@[q] < value,
        decreases values@.len() - p,
    {
        p = p + 1;
    }
    if p < values.len() && values[p] == value {
        return;
    }
    let ghost before = values@;
    values.insert(p, value);
    proof {
        assert forall|a: int, b: int| 0 <= a < b < values@.len() implies #[trigger] values@[a] < #[trigger] values@[b] by {
            if b < p {
                assert(values@[a] == before[a] && values@[b] == before[b]);
            } else if b == p {
                assert(values@[a] == before[a]);
            } else if a < p {
                assert(values@[a] == before[a] && values@[b] == before[b - 1]);
                assert(value < before[p as int]);
            } else if a == p {
                assert(values@[b] == before[b - 1]);
                assert(value < before[p as int]);
            } else {
                assert(values@[a] == before[a - 1] && values@[b] == before[b - 1]);
            }
        }
        assert forall|x: u64| #![trigger values@.contains(x)] values@.contains(x) <==> (before.contains(x) || x == value) by {
            if before.contains(x) {
                let q = choose|q: int| 0 <= q < before.len() && #[trigger] before[q] == x;
                if q < p {
                    assert(values@[q] == x);
                } else {
                    assert(values@[q + 1] == x);
                }
            }
            if x == value {
                assert(values@[p as int] == x);
            }
            if values@.contains(x) {
                let q = choose|q: int| 0 <= q < values@.len() && #[trigger] values@[q] == x;
                if q < p {
                    assert(before[q] == x);
                } else if q > p {
                    assert(before[q - 1] == x);
                }
            }
        }
    }
}

} // verus!
