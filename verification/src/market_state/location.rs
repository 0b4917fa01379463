//! Fast market location of a price against the node graph.

use super::contracts::{
    MarketLocation, MarketLocationSnapshot, Price, StructuralGraphSnapshot, StructuralNode,
};
use vstd::prelude::*;

verus! {

/// `value` in parts per million of `atr`, clamped to the `i64` range; absent
/// when the ATR is not positive.
pub open spec fn ratio_spec(value: int, atr: int) -> Option<i64> {
    if atr > 0 {
        let raw = value * 1_000_000 / atr;
        Some(
            if raw < i64::MIN {
                i64::MIN
            } else if raw > i64::MAX {
                i64::MAX
            } else {
                raw as i64
            },
        )
    } else {
        None
    }
}

/// The price lies inside the node's band, bounds included.
pub open spec fn node_contains(node: StructuralNode, price: int) -> bool {
    node.lower <= price <= node.upper
}

/// `a` is strictly tighter than `b`: narrower, or as narrow with a smaller id.
pub open spec fn tighter(a: StructuralNode, b: StructuralNode) -> bool {
    a.upper - a.lower < b.upper - b.lower || (a.upper - a.lower == b.upper - b.lower && a.id.0
        < b.id.0)
}

/// Position of the first tightest node among the first `n` that contains the
/// price.
pub open spec fn tightest_prefix(nodes: Seq<StructuralNode>, price: int, n: nat) -> Option<int>
    decreases n,
{
    if n == 0 {
        None
    } else {
        let best = tightest_prefix(nodes, price, (n - 1) as nat);
        let i = n - 1;
        if !node_contains(nodes[i], price) {
            best
        } else {
            match best {
                None => Some(i),
                Some(b) => if tighter(nodes[i], nodes[b]) {
                    Some(i)
                } else {
                    Some(b)
                },
            }
        }
    }
}

/// Every distance the location may compute fits in an `i64`.
pub open spec fn distances_fit(nodes: Seq<StructuralNode>, price: int) -> bool {
    forall|i: int|
        #![trigger nodes[i]]
        0 <= i < nodes.len() ==> {
            &&& -i64::MAX <= price - nodes[i].lower <= i64::MAX
            &&& -i64::MAX <= nodes[i].upper - price <= i64::MAX
        }
}

/// Non-negative part of a value.
pub open spec fn non_negative(value: int) -> int {
    if value < 0 {
        0
    } else {
        value
    }
}

/// Where `price` stands, given the index `upper` of the first node whose
/// center is not below it.
pub open spec fn locate_spec(nodes: Seq<StructuralNode>, price: int, atr: int, upper: int) -> MarketLocationSnapshot {
    if nodes.len() == 0 {
        MarketLocationSnapshot {
            location: MarketLocation::Unavailable,
            distance_to_lower: None,
            distance_to_upper: None,
            distance_to_lower_atr_ppm: None,
            distance_to_upper_atr_ppm: None,
        }
    } else if let Some(i) = tightest_prefix(nodes, price, nodes.len()) {
        let node = nodes[i];
        let to_lower = non_negative(price - node.lower);
        let to_upper = non_negative(node.upper - price);
        MarketLocationSnapshot {
            location: MarketLocation::InsideNode(node.id),
            distance_to_lower: Some(to_lower as i64),
            distance_to_upper: Some(to_upper as i64),
            distance_to_lower_atr_ppm: ratio_spec(to_lower, atr),
            distance_to_upper_atr_ppm: ratio_spec(to_upper, atr),
        }
    } else if upper == 0 {
        let nearest = nodes[0];
        let distance = non_negative(nearest.lower - price);
        MarketLocationSnapshot {
            location: MarketLocation::BelowKnownStructure { nearest: nearest.id },
            distance_to_lower: None,
            distance_to_upper: Some(distance as i64),
            distance_to_lower_atr_ppm: None,
            distance_to_upper_atr_ppm: ratio_spec(distance, atr),
        }
    } else if upper == nodes.len() {
        let nearest = nodes[nodes.len() - 1];
        let distance = non_negative(price - nearest.upper);
        MarketLocationSnapshot {
            location: MarketLocation::AboveKnownStructure { nearest: nearest.id },
            distance_to_lower: Some(distance as i64),
            distance_to_upper: None,
            distance_to_lower_atr_ppm: ratio_spec(distance, atr),
            distance_to_upper_atr_ppm: None,
        }
    } else {
        let lower = nodes[upper - 1];
        let upper_node = nodes[upper];
        let lower_distance = non_negative(price - lower.upper);
        let upper_distance = non_negative(upper_node.lower - price);
        MarketLocationSnapshot {
            location: MarketLocation::Between { lower: lower.id, upper: upper_node.id },
            distance_to_lower: Some(lower_distance as i64),
            distance_to_upper: Some(upper_distance as i64),
            distance_to_lower_atr_ppm: ratio_spec(lower_distance, atr),
            distance_to_upper_atr_ppm: ratio_spec(upper_distance, atr),
        }
    }
}

/// Index of the first node whose center is not below `price`.
pub open spec fn first_not_below(nodes: Seq<StructuralNode>, price: int, i: int) -> bool {
    &&& 0 <= i <= nodes.len()
    &&& forall|j: int| 0 <= j < i ==> #[trigger] nodes[j].center < price
    &&& i < nodes.len() ==> nodes[i].center >= price
}

/// The tightest containing node contains the price and no containing node is
/// tighter; a price between two nodes has the lower node's center below it and
/// the upper node's center at or above it.
pub proof fn lemma_location_geometry(nodes: Seq<StructuralNode>, price: int, n: nat)
    requires
        n <= nodes.len(),
    ensures
        tightest_prefix(nodes, price, n) matches Some(i) ==> 0 <= i < n && node_contains(
            nodes[i],
            price,
        ) && forall|j: int|
            0 <= j < n && node_contains(nodes[j], price) ==> !tighter(#[trigger] nodes[j], nodes[i]),
        tightest_prefix(nodes, price, n) is None ==> forall|j: int|
            0 <= j < n ==> !node_contains(#[trigger] nodes[j], price),
    decreases n,
{
    if n > 0 {
        lemma_location_geometry(nodes, price, (n - 1) as nat);
    }
}

/// `value` in parts per million of a positive `atr`, truncated toward zero
/// and clamped to the `i64` range.
pub open spec fn ppm_of(value: int, atr: int) -> i64 {
    let raw = value * 1_000_000 / atr;
    if raw > i64::MAX {
        i64::MAX
    } else if raw < i64::MIN {
        i64::MIN
    } else {
        raw as i64
    }
}

/// What a located price says, in terms of the nodes it was located
/// against:
/// - inside a node: the price lies in that node's band, no containing node
///   is tighter, and the distances run from the price to the node's lower
///   and upper bounds;
/// - between two nodes: they are neighbours, the price lies in no node, the
///   lower node's center is below the price and the upper node's center is
///   not, and the distances are the gaps from the lower node's upper bound to
///   the price and from the price to the upper node's lower bound (zero at
///   most);
/// - below all structure: the price lies in no node, the first node's
///   center is not below it, and the distance is the gap up to the first
///   node's lower bound;
/// - above all structure: the price lies in no node, every center is below
///   it, and the distance is the gap from the last node's upper bound.
/// Each distance comes with its ratio to a positive ATR in parts per
/// million, and none without one.
pub proof fn lemma_location_meaning(nodes: Seq<StructuralNode>, price: int, atr: int, snapshot: MarketLocationSnapshot)
    requires
        distances_fit(nodes, price),
        exists|upper: int| first_not_below(nodes, price, upper) && snapshot == locate_spec(nodes, price, atr, upper),
    ensures
        nodes.len() == 0 <==> snapshot.location == MarketLocation::Unavailable,
        snapshot.location == MarketLocation::Unavailable ==> snapshot.distance_to_lower is None
            && snapshot.distance_to_upper is None,
        snapshot.distance_to_lower matches Some(d) ==> snapshot.distance_to_lower_atr_ppm == if atr > 0 {
            Some(ppm_of(d as int, atr))
        } else {
            None::<i64>
        },
        snapshot.distance_to_upper matches Some(d) ==> snapshot.distance_to_upper_atr_ppm == if atr > 0 {
            Some(ppm_of(d as int, atr))
        } else {
            None::<i64>
        },
        snapshot.distance_to_lower is None ==> snapshot.distance_to_lower_atr_ppm is None,
        snapshot.distance_to_upper is None ==> snapshot.distance_to_upper_atr_ppm is None,
        snapshot.location matches MarketLocation::InsideNode(id) ==> exists|i: int|
            0 <= i < nodes.len() && #[trigger] nodes[i].id == id && nodes[i].lower <= price <= nodes[i].upper
                && (forall|j: int| 0 <= j < nodes.len() && nodes[j].lower <= price <= nodes[j].upper
                    ==> !tighter(#[trigger] nodes[j], nodes[i]))
                && snapshot.distance_to_lower == Some((price - nodes[i].lower) as i64)
                && snapshot.distance_to_upper == Some((nodes[i].upper - price) as i64),
        snapshot.location matches MarketLocation::Between { lower, upper } ==> {
            &&& forall|j: int| 0 <= j < nodes.len() ==> !(#[trigger] nodes[j].lower <= price <= nodes[j].upper)
            &&& exists|i: int|
                0 < i < nodes.len() && #[trigger] nodes[i].id == upper && nodes[i - 1].id == lower
                    && nodes[i - 1].center < price && price <= nodes[i].center
                    && snapshot.distance_to_lower == Some((if price - nodes[i - 1].upper < 0 { 0 } else { price - nodes[i - 1].upper }) as i64)
                    && snapshot.distance_to_upper == Some((if nodes[i].lower - price < 0 { 0 } else { nodes[i].lower - price }) as i64)
        },
        snapshot.location matches MarketLocation::BelowKnownStructure { nearest } ==> {
            &&& nodes.len() > 0 && nodes[0].id == nearest
            &&& forall|j: int| 0 <= j < nodes.len() ==> !(#[trigger] nodes[j].lower <= price <= nodes[j].upper)
            &&& price <= nodes[0].center
            &&& snapshot.distance_to_lower is None
            &&& snapshot.distance_to_upper == Some((if nodes[0].lower - price < 0 { 0 } else { nodes[0].lower - price }) as i64)
        },
        snapshot.location matches MarketLocation::AboveKnownStructure { nearest } ==> {
            &&& nodes.len() > 0 && nodes[nodes.len() - 1].id == nearest
            &&& forall|j: int| 0 <= j < nodes.len() ==> !(#[trigger] nodes[j].lower <= price <= nodes[j].upper)
            &&& forall|j: int| 0 <= j < nodes.len() ==> #[trigger] nodes[j].center < price
            &&& snapshot.distance_to_upper is None
            &&& snapshot.distance_to_lower == Some((if price - nodes[nodes.len() - 1].upper < 0 { 0 } else { price - nodes[nodes.len() - 1].upper }) as i64)
        },
{
    let upper = choose|upper: int| first_not_below(nodes, price, upper) && snapshot == locate_spec(nodes, price, atr, upper);
    lemma_location_geometry(nodes, price, nodes.len());
    if nodes.len() > 0 {
        match tightest_prefix(nodes, price, nodes.len()) {
            Some(i) => {
                assert(nodes[i].id == nodes[i].id);
                let to_lower = non_negative(price - nodes[i].lower);
                let to_upper = non_negative(nodes[i].upper - price);
                assert(0 <= to_lower <= i64::MAX && 0 <= to_upper <= i64::MAX);
                assert((to_lower as i64) as int == to_lower && (to_upper as i64) as int == to_upper);
            },
            None => {
                if upper == 0 {
                    let d = non_negative(nodes[0].lower - price);
                    assert(0 <= d <= i64::MAX);
                    assert((d as i64) as int == d);
                } else if upper == nodes.len() {
                    let d = non_negative(price - nodes[nodes.len() - 1].upper);
                    assert(0 <= d <= i64::MAX);
                    assert((d as i64) as int == d);
                } else {
                    assert(nodes[upper].id == nodes[upper].id);
                    let dl = non_negative(price - nodes[upper - 1].upper);
                    let du = non_negative(nodes[upper].lower - price);
                    assert(0 <= dl <= i64::MAX && 0 <= du <= i64::MAX);
                    assert((dl as i64) as int == dl && (du as i64) as int == du);
                }
            },
        }
    }
}

/// `value` in parts per million of `atr`, clamped; `None` when `atr <= 0`.
fn ratio(value: i64, atr: i64) -> (result: Option<i64>)
    requires
        value >= 0,
    ensures
        result == ratio_spec(value as int, atr as int),
{
    if atr > 0 {
        let raw: i128 = (value as i128 * 1_000_000i128) / (atr as i128);
        if raw < i64::MIN as i128 {
            Some(i64::MIN)
        } else if raw > i64::MAX as i128 {
            Some(i64::MAX)
        } else {
            Some(raw as i64)
        }
    } else {
        None
    }
}

/// Locates `price` against the node graph.
pub fn locate_market(graph: &StructuralGraphSnapshot, price: Price, atr: i64) -> (snapshot:
    MarketLocationSnapshot)
    requires
        distances_fit(graph.nodes@, price as int),
    ensures
        exists|upper: int|
            first_not_below(graph.nodes@, price as int, upper) && snapshot == locate_spec(
                graph.nodes@,
                price as int,
                atr as int,
                upper,
            ),
{
    let nodes = &graph.nodes;
    let n = nodes.len();
    if n == 0 {
        let result = MarketLocationSnapshot::unavailable();
        assert(first_not_below(graph.nodes@, price as int, 0));
        return result;
    }
    let mut best: Option<usize> = None;
    let mut i: usize = 0;
    while i < n
        invariant
            n == nodes@.len(),
            0 <= i <= n,
            best == (match tightest_prefix(nodes@, price as int, i as nat) {
                Some(b) => Some(b as usize),
                None => None::<usize>,
            }),
            tightest_prefix(nodes@, price as int, i as nat) matches Some(b) ==> 0 <= b < i,
        decreases n - i,
    {
        let node = &nodes[i];
        if price >= node.lower && price <= node.upper {
            match best {
                None => {
                    best = Some(i);
                },
                Some(b) => {
                    let current = &nodes[b];
                    let width = node.upper as i128 - node.lower as i128;
                    let best_width = current.upper as i128 - current.lower as i128;
                    if width < best_width || (width == best_width && node.id.0 < current.id.0) {
                        best = Some(i);
                    }
                },
            }
        }
        i = i + 1;
    }
    let mut upper: usize = 0;
    while upper < n && nodes[upper].center < price
        invariant
            n == nodes@.len(),
            0 <= upper <= n,
            forall|j: int| 0 <= j < upper ==> #[trigger] nodes@[j].center < price,
        decreases n - upper,
    {
        upper = upper + 1;
    }
    assert(first_not_below(graph.nodes@, price as int, upper as int));
    match best {
        Some(b) => {
            let node = &nodes[b];
            let to_lower = if price - node.lower < 0 {
                0
            } else {
                price - node.lower
            };
            let to_upper = if node.upper - price < 0 {
                0
            } else {
                node.upper - price
            };
            MarketLocationSnapshot {
                location: MarketLocation::InsideNode(node.id),
                distance_to_lower: Some(to_lower),
                distance_to_upper: Some(to_upper),
                distance_to_lower_atr_ppm: ratio(to_lower, atr),
                distance_to_upper_atr_ppm: ratio(to_upper, atr),
            }
        },
        None => {
            if upper == 0 {
                let nearest = &nodes[0];
                let distance = if nearest.lower - price < 0 {
                    0
                } else {
                    nearest.lower - price
                };
                MarketLocationSnapshot {
                    location: MarketLocation::BelowKnownStructure { nearest: nearest.id },
                    distance_to_lower: None,
                    distance_to_upper: Some(distance),
                    distance_to_lower_atr_ppm: None,
                    distance_to_upper_atr_ppm: ratio(distance, atr),
                }
            } else if upper == n {
                let nearest = &nodes[n - 1];
                let distance = if price - nearest.upper < 0 {
                    0
                } else {
                    price - nearest.upper
                };
                MarketLocationSnapshot {
                    location: MarketLocation::AboveKnownStructure { nearest: nearest.id },
                    distance_to_lower: Some(distance),
                    distance_to_upper: None,
                    distance_to_lower_atr_ppm: ratio(distance, atr),
                    distance_to_upper_atr_ppm: None,
                }
            } else {
                let lower = &nodes[upper - 1];
                let upper_node = &nodes[upper];
                let lower_distance = if price - lower.upper < 0 {
                    0
                } else {
                    price - lower.upper
                };
                let upper_distance = if upper_node.lower - price < 0 {
                    0
                } else {
                    upper_node.lower - price
                };
                MarketLocationSnapshot {
                    location: MarketLocation::Between { lower: lower.id, upper: upper_node.id },
                    distance_to_lower: Some(lower_distance),
                    distance_to_upper: Some(upper_distance),
                    distance_to_lower_atr_ppm: ratio(lower_distance, atr),
                    distance_to_upper_atr_ppm: ratio(upper_distance, atr),
                }
            }
        },
    }
}

} // verus!
