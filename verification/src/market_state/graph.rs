//! Node graph: compatible structural objects cluster into nodes whose
//! identities survive motion, and the gaps between nodes form corridors.

use super::contracts::{
    LevelFamily, LevelId, LevelRole, NodeGenealogy, PriceSpace, RoleSide, StructuralCorridor,
    StructuralGraphSnapshot, StructuralNode, StructuralNodeId, StructuralObject, family_rank,
    role_rank, role_side,
};
use super::level_book::ids_unique;
use super::ordering::{SortKey, insert_unique_sorted, key_le, keyed_sorted, sort_keyed};
use crate::data_plane::InstrumentId;
use super::inline_lists::{FamilyList, IdList, NodeIdList, RoleList};
use std::sync::Arc;
use vstd::prelude::*;
use vstd::set_lib::{lemma_int_range, lemma_map_size_bound, set_int_range};

verus! {

/// Tolerances for merging structural objects into one node.
#[derive(Clone, Copy, Debug, PartialEq, Eq, Structural)]
pub struct NodeMergeSpec {
    /// Fraction of ATR accepted as merge distance, in parts per million.
    pub atr_fraction_ppm: u32,
    pub noise_multiplier: u32,
    pub tick_multiplier: u32,
}

impl Default for NodeMergeSpec {
    fn default() -> (spec: Self)
        ensures
            spec == (NodeMergeSpec { atr_fraction_ppm: 80_000, noise_multiplier: 1, tick_multiplier: 2 }),
    {
        NodeMergeSpec { atr_fraction_ppm: 80_000, noise_multiplier: 1, tick_multiplier: 2 }
    }
}

/// `value` limited to at most `i64::MAX`.
pub open spec fn cap_i64(value: int) -> int {
    if value > i64::MAX {
        i64::MAX as int
    } else {
        value
    }
}

/// Larger of two integers.
pub open spec fn max_int(a: int, b: int) -> int {
    if a >= b {
        a
    } else {
        b
    }
}

/// Merge distance: the largest of the ATR fraction, the scaled noise floor and
/// the scaled tick, each saturating at `i64::MAX`.
pub open spec fn threshold_spec(spec: NodeMergeSpec, atr: int, noise: int, tick: int) -> int {
    let atr_component = cap_i64(max_int(atr, 0) * spec.atr_fraction_ppm / 1_000_000);
    let noise_component = cap_i64(max_int(noise, 0) * spec.noise_multiplier);
    let tick_component = cap_i64(max_int(tick, 0) * spec.tick_multiplier);
    max_int(max_int(atr_component, noise_component), tick_component)
}

impl NodeMergeSpec {
    /// Merge distance for the given ATR, noise floor and tick.
    pub fn threshold(self, atr: i64, noise: i64, tick: i64) -> (threshold: i64)
        ensures
            threshold == threshold_spec(self, atr as int, noise as int, tick as int),
    {
        let atr_base: i128 = if atr < 0 {
            0
        } else {
            atr as i128
        };
        let atr_scale: i128 = self.atr_fraction_ppm as i128;
        assert(0 <= atr_base * atr_scale <= 0x7fff_ffff_ffff_ffff * 0xffff_ffff) by (nonlinear_arith)
            requires
                0 <= atr_base <= 0x7fff_ffff_ffff_ffff,
                0 <= atr_scale <= 0xffff_ffff,
        ;
        let atr_raw: i128 = atr_base * atr_scale / 1_000_000i128;
        let atr_component: i64 = if atr_raw > i64::MAX as i128 {
            i64::MAX
        } else {
            atr_raw as i64
        };
        let noise_base: i128 = if noise < 0 {
            0
        } else {
            noise as i128
        };
        let noise_scale: i128 = self.noise_multiplier as i128;
        assert(0 <= noise_base * noise_scale <= 0x7fff_ffff_ffff_ffff * 0xffff_ffff) by (nonlinear_arith)
            requires
                0 <= noise_base <= 0x7fff_ffff_ffff_ffff,
                0 <= noise_scale <= 0xffff_ffff,
        ;
        let noise_raw: i128 = noise_base * noise_scale;
        let noise_component: i64 = if noise_raw > i64::MAX as i128 {
            i64::MAX
        } else {
            noise_raw as i64
        };
        let tick_base: i128 = if tick < 0 {
            0
        } else {
            tick as i128
        };
        let tick_scale: i128 = self.tick_multiplier as i128;
        assert(0 <= tick_base * tick_scale <= 0x7fff_ffff_ffff_ffff * 0xffff_ffff) by (nonlinear_arith)
            requires
                0 <= tick_base <= 0x7fff_ffff_ffff_ffff,
                0 <= tick_scale <= 0xffff_ffff,
        ;
        let tick_raw: i128 = tick_base * tick_scale;
        let tick_component: i64 = if tick_raw > i64::MAX as i128 {
            i64::MAX
        } else {
            tick_raw as i64
        };
        let first = if atr_component >= noise_component {
            atr_component
        } else {
            noise_component
        };
        if first >= tick_component {
            first
        } else {
            tick_component
        }
    }
}

/// Gap between two bands, zero when they touch or overlap, saturating at
/// `i64::MAX`.
pub open spec fn distance_spec(left_lower: int, left_upper: int, right_lower: int, right_upper: int) -> int {
    if left_upper < right_lower {
        cap_i64(right_lower - left_upper)
    } else if right_upper < left_lower {
        cap_i64(left_lower - right_upper)
    } else {
        0
    }
}

/// Two sides that face each other across a node.
pub open spec fn opposed(a: RoleSide, b: RoleSide) -> bool {
    (a == RoleSide::Lower && b == RoleSide::Upper) || (a == RoleSide::Upper && b == RoleSide::Lower)
}

/// Two objects may share a node: they are not siblings of one non-zero
/// exclusive group and do not face each other as a lower and an upper role.
pub open spec fn compatible_spec(left: StructuralObject, right: StructuralObject) -> bool {
    let lg = left.provenance_spec().exclusive_group;
    let rg = right.provenance_spec().exclusive_group;
    !(lg != 0 && lg == rg) && !opposed(role_side(left.role_spec()), role_side(right.role_spec()))
}

/// The object takes part in the graph of `instrument` in `space`.
pub open spec fn eligible(object: StructuralObject, instrument: InstrumentId, space: PriceSpace) -> bool {
    object.is_active_spec() && object.instrument_spec() == instrument && object.price_space_spec()
        == space
}

/// Facts about one node relative to the objects it was built from.
pub open spec fn node_sound(
    node: StructuralNode,
    objects: Seq<StructuralObject>,
    instrument: InstrumentId,
    space: PriceSpace,
) -> bool {
    &&& node.instrument_id == instrument
    &&& node.price_space == space
    &&& node.lower <= node.upper
    &&& forall|c: LevelId|
        #![trigger node.contributors@.contains(c)]
        node.contributors@.contains(c) ==> exists|o: StructuralObject|
            #![trigger objects.contains(o)]
            objects.contains(o) && eligible(o, instrument, space) && o.id_spec() == c
    &&& ids_unique(objects) ==> forall|a: StructuralObject, b: StructuralObject|
        #![trigger objects.contains(a), objects.contains(b)]
        objects.contains(a) && objects.contains(b) && eligible(a, instrument, space) && eligible(
            b,
            instrument,
            space,
        ) && node.contributors@.contains(a.id_spec()) && node.contributors@.contains(b.id_spec())
            && a.id_spec() != b.id_spec() ==> compatible_spec(a, b)
    &&& ids_unique(objects) ==> forall|a: StructuralObject|
        #![trigger objects.contains(a)]
        objects.contains(a) && eligible(a, instrument, space) && node.contributors@.contains(
            a.id_spec(),
        ) ==> node.lower <= a.lower_spec() && a.upper_spec() <= node.upper
    &&& forall|a: int, b: int|
        0 <= a < b < node.roles@.len() ==> role_rank(#[trigger] node.roles@[a]) < role_rank(#[trigger] node.roles@[b])
    &&& forall|a: int, b: int|
        0 <= a < b < node.families@.len() ==> family_rank(#[trigger] node.families@[a]) < family_rank(
            #[trigger] node.families@[b],
        )
    &&& ids_unique(objects) ==> forall|r: LevelRole|
        #![trigger node.roles@.contains(r)]
        node.roles@.contains(r) <==> exists|o: StructuralObject|
            #![trigger objects.contains(o)]
            objects.contains(o) && eligible(o, instrument, space) && node.contributors@.contains(o.id_spec())
                && o.role_spec() == r
    &&& ids_unique(objects) ==> forall|f: LevelFamily|
        #![trigger node.families@.contains(f)]
        node.families@.contains(f) <==> exists|o: StructuralObject|
            #![trigger objects.contains(o)]
            objects.contains(o) && eligible(o, instrument, space) && node.contributors@.contains(o.id_spec())
                && o.family_spec() == f
}

/// Sort key of a node: center, lower, upper, identity.
pub open spec fn node_key(node: StructuralNode) -> SortKey {
    SortKey { a: node.center as i128, b: node.lower as i128, c: node.upper as i128, d: node.id.0 as i128 }
}

/// `value` in parts per million of `denominator`, clamped; zero when the
/// denominator is not positive.
pub open spec fn ratio_ppm_spec(value: int, denominator: int) -> i64 {
    if denominator <= 0 {
        0
    } else {
        let raw = value * 1_000_000 / denominator;
        if raw < i64::MIN {
            i64::MIN
        } else if raw > i64::MAX {
            i64::MAX
        } else {
            raw as i64
        }
    }
}

/// The corridor between two adjacent nodes.
pub open spec fn corridor_spec(lower: StructuralNode, upper: StructuralNode, atr: int) -> StructuralCorridor {
    let width = if upper.lower - lower.upper < 0 {
        0
    } else {
        cap_i64(upper.lower - lower.upper)
    };
    StructuralCorridor {
        lower_node: lower.id,
        upper_node: upper.id,
        lower_edge: lower.upper,
        upper_edge: upper.lower,
        width: width as i64,
        width_atr_ppm: ratio_ppm_spec(width, atr),
    }
}

/// Corridors join each pair of adjacent nodes in order.
pub open spec fn corridors_follow(nodes: Seq<StructuralNode>, corridors: Seq<StructuralCorridor>, atr: int) -> bool {
    &&& corridors.len() == if nodes.len() == 0 {
        0
    } else {
        nodes.len() - 1
    }
    &&& forall|i: int| 0 <= i < corridors.len() ==> #[trigger] corridors[i] == corridor_spec(nodes[i], nodes[i + 1], atr)
}

/// Where a node's identity comes from: it continues a node of the previous
/// graph, keeping that node's identity and creation time, or it is new,
/// created now, with an identity whose upper half is its instrument.
pub open spec fn identity_follows(
    node: StructuralNode,
    previous: Seq<StructuralNode>,
    instrument: InstrumentId,
    now_ns: i64,
) -> bool {
    ||| exists|j: int|
        0 <= j < previous.len() && (#[trigger] previous[j]).id == node.id && previous[j].created_at_ns
            == node.created_at_ns
    ||| node.id.0 >> 32u64 == instrument.0 as u64 && node.created_at_ns == now_ns
}

/// The genealogy entry that names a node of the new graph: its creation, its
/// preservation, or the merge into it.
pub open spec fn names_node(entry: NodeGenealogy, id: StructuralNodeId) -> bool {
    match entry {
        NodeGenealogy::Created(node) => node == id,
        NodeGenealogy::Preserved(node) => node == id,
        NodeGenealogy::Merged { into, .. } => into == id,
        _ => false,
    }
}

/// Some entry of the genealogy names the node.
pub open spec fn genealogy_names(genealogy: Seq<NodeGenealogy>, id: StructuralNodeId) -> bool {
    exists|k: int| 0 <= k < genealogy.len() && names_node(#[trigger] genealogy[k], id)
}

/// Splits and expiries speak of nodes of the previous graph.
pub open spec fn speaks_of_previous(entry: NodeGenealogy, previous: Seq<StructuralNode>) -> bool {
    match entry {
        NodeGenealogy::Split { from, .. } => exists|j: int| 0 <= j < previous.len() && (#[trigger] previous[j]).id == from,
        NodeGenealogy::Expired(from) => exists|j: int| 0 <= j < previous.len() && (#[trigger] previous[j]).id == from,
        _ => true,
    }
}

/// A node graph built from `objects` for `instrument` in `space`.
pub open spec fn graph_sound(
    graph: StructuralGraphSnapshot,
    objects: Seq<StructuralObject>,
    instrument: InstrumentId,
    space: PriceSpace,
    atr: int,
) -> bool {
    &&& forall|i: int| 0 <= i < graph.nodes@.len() ==> node_sound(#[trigger] graph.nodes@[i], objects, instrument, space)
    &&& forall|o: StructuralObject|
        #![trigger objects.contains(o)]
        objects.contains(o) && eligible(o, instrument, space) ==> exists|i: int|
            0 <= i < graph.nodes@.len() && (#[trigger] graph.nodes@[i]).contributors@.contains(o.id_spec())
    &&& forall|i: int, j: int|
        0 <= i < j < graph.nodes@.len() ==> key_le(node_key(#[trigger] graph.nodes@[i]), node_key(#[trigger] graph.nodes@[j]))
    &&& corridors_follow(graph.nodes@, graph.corridors@, atr)
}

/// Merge order key of an object: lower bound, upper bound, reference price,
/// identity.
pub open spec fn object_key(object: StructuralObject) -> SortKey {
    SortKey {
        a: object.lower_spec() as i128,
        b: object.upper_spec() as i128,
        c: object.reference_spec() as i128,
        d: object.id_spec().0 as i128,
    }
}

/// The eligible objects with their merge keys, in the order given.
pub open spec fn eligible_keyed(
    objects: Seq<StructuralObject>,
    instrument: InstrumentId,
    space: PriceSpace,
) -> Seq<(SortKey, StructuralObject)>
    decreases objects.len(),
{
    if objects.len() == 0 {
        Seq::empty()
    } else {
        let rest = eligible_keyed(objects.drop_last(), instrument, space);
        if eligible(objects.last(), instrument, space) {
            rest.push((object_key(objects.last()), objects.last()))
        } else {
            rest
        }
    }
}

/// `order` holds the eligible objects of `objects` with their keys, each as
/// often as there, in key order.
pub open spec fn merge_order(
    order: Seq<(SortKey, StructuralObject)>,
    objects: Seq<StructuralObject>,
    instrument: InstrumentId,
    space: PriceSpace,
) -> bool {
    &&& order.to_multiset() == eligible_keyed(objects, instrument, space).to_multiset()
    &&& keyed_sorted(order)
}

/// The objects of a keyed sequence.
pub open spec fn order_objects(order: Seq<(SortKey, StructuralObject)>) -> Seq<StructuralObject> {
    order.map_values(|x: (SortKey, StructuralObject)| x.1)
}

/// A group of objects as the merge pass sees it: its members in joining
/// order, the band they span and its center.
pub struct Cluster {
    pub members: Seq<StructuralObject>,
    pub lower: int,
    pub upper: int,
    pub center: int,
}

/// A cluster takes an object that lies within `threshold` of its band and
/// is compatible with every member.
pub open spec fn cluster_accepts(cluster: Cluster, object: StructuralObject, threshold: int) -> bool {
    &&& distance_spec(cluster.lower, cluster.upper, object.lower_spec() as int, object.upper_spec() as int)
        <= threshold
    &&& forall|i: int| 0 <= i < cluster.members.len() ==> compatible_spec(#[trigger] cluster.members[i], object)
}

/// The last of the first `n` clusters that takes the object, if any.
pub open spec fn latest_accepting(clusters: Seq<Cluster>, object: StructuralObject, threshold: int, n: nat) -> Option<int>
    decreases n,
{
    if n == 0 {
        None
    } else if cluster_accepts(clusters[n - 1], object, threshold) {
        Some(n - 1)
    } else {
        latest_accepting(clusters, object, threshold, (n - 1) as nat)
    }
}

/// A cluster of one object, centered on its reference price.
pub open spec fn single_cluster(object: StructuralObject) -> Cluster {
    Cluster {
        members: seq![object],
        lower: object.lower_spec() as int,
        upper: object.upper_spec() as int,
        center: object.reference_spec() as int,
    }
}

/// A cluster after it takes an object: the band widens to cover it and the
/// center moves to the band's midpoint, rounded toward the lower bound.
pub open spec fn joined_cluster(cluster: Cluster, object: StructuralObject) -> Cluster {
    let lower = if (object.lower_spec() as int) < cluster.lower { object.lower_spec() as int } else { cluster.lower };
    let upper = if (object.upper_spec() as int) > cluster.upper { object.upper_spec() as int } else { cluster.upper };
    Cluster { members: cluster.members.push(object), lower, upper, center: lower + (upper - lower) / 2 }
}

/// One merge step: the object joins the last cluster that takes it, or
/// starts a cluster of its own.
pub open spec fn cluster_step(clusters: Seq<Cluster>, object: StructuralObject, threshold: int) -> Seq<Cluster> {
    match latest_accepting(clusters, object, threshold, clusters.len()) {
        Some(c) => clusters.update(c, joined_cluster(clusters[c], object)),
        None => clusters.push(single_cluster(object)),
    }
}

/// The clusters of a merge pass over `objects`, in the order they start.
pub open spec fn cluster_fold(objects: Seq<StructuralObject>, threshold: int) -> Seq<Cluster>
    decreases objects.len(),
{
    if objects.len() == 0 {
        Seq::empty()
    } else {
        cluster_step(cluster_fold(objects.drop_last(), threshold), objects.last(), threshold)
    }
}

/// A node stands for a cluster: same band and center, and its contributors
/// are the identities of the cluster's members.
pub open spec fn node_is_cluster(node: StructuralNode, cluster: Cluster) -> bool {
    &&& node.lower == cluster.lower
    &&& node.upper == cluster.upper
    &&& node.center == cluster.center
    &&& forall|c: LevelId|
        #![trigger node.contributors@.contains(c)]
        node.contributors@.contains(c) <==> exists|i: int|
            0 <= i < cluster.members.len() && (#[trigger] cluster.members[i]).id_spec() == c
}

/// The nodes are the clusters, one node for each, in some order.
pub open spec fn nodes_are_clusters(nodes: Seq<StructuralNode>, clusters: Seq<Cluster>) -> bool {
    &&& nodes.len() == clusters.len()
    &&& forall|i: int| 0 <= i < nodes.len() ==> exists|c: int| 0 <= c < clusters.len() && node_is_cluster(#[trigger] nodes[i], clusters[c])
    &&& forall|c: int| 0 <= c < clusters.len() ==> exists|i: int| 0 <= i < nodes.len() && node_is_cluster(nodes[i], #[trigger] clusters[c])
}

/// Distinct clusters share no member identity, and none is empty.
pub open spec fn clusters_disjoint(clusters: Seq<Cluster>) -> bool {
    &&& forall|c: int| 0 <= c < clusters.len() ==> (#[trigger] clusters[c]).members.len() > 0
    &&& forall|c1: int, c2: int, a: int, b: int|
        0 <= c1 < clusters.len() && 0 <= c2 < clusters.len() && c1 != c2 && 0 <= a < clusters[c1].members.len()
            && 0 <= b < clusters[c2].members.len() ==> (#[trigger] clusters[c1].members[a]).id_spec()
            != (#[trigger] clusters[c2].members[b]).id_spec()
}

/// The cluster that takes an object is one of those searched.
proof fn lemma_latest_in_range(clusters: Seq<Cluster>, object: StructuralObject, threshold: int, n: nat)
    ensures
        latest_accepting(clusters, object, threshold, n) matches Some(c) ==> 0 <= c < n,
    decreases n,
{
    if n > 0 {
        lemma_latest_in_range(clusters, object, threshold, (n - 1) as nat);
    }
}

/// A merge pass over objects with distinct identities places each object in
/// exactly one cluster: clusters hold only objects of the pass and share no
/// identity.
pub proof fn lemma_fold_disjoint(objects: Seq<StructuralObject>, threshold: int)
    requires
        ids_unique(objects),
    ensures
        clusters_disjoint(cluster_fold(objects, threshold)),
        forall|c: int, a: int|
            0 <= c < cluster_fold(objects, threshold).len() && 0 <= a < cluster_fold(objects, threshold)[c].members.len()
                ==> objects.contains(#[trigger] cluster_fold(objects, threshold)[c].members[a]),
    decreases objects.len(),
{
    if objects.len() > 0 {
        let rest = objects.drop_last();
        let last = objects.last();
        assert(ids_unique(rest)) by {
            assert forall|i: int, j: int| 0 <= i < rest.len() && 0 <= j < rest.len() && i != j implies super::level_book::key_of(#[trigger] rest[i])
                != super::level_book::key_of(#[trigger] rest[j]) by {
                assert(rest[i] == objects[i] && rest[j] == objects[j]);
            }
        }
        lemma_fold_disjoint(rest, threshold);
        let prev = cluster_fold(rest, threshold);
        let next = cluster_fold(objects, threshold);
        assert(next == cluster_step(prev, last, threshold));
        // `last` differs in identity from every member so far.
        assert forall|c: int, a: int| 0 <= c < prev.len() && 0 <= a < prev[c].members.len() implies (#[trigger] prev[c].members[a]).id_spec() != last.id_spec() by {
            assert(rest.contains(prev[c].members[a]));
            let k = choose|k: int| 0 <= k < rest.len() && rest[k] == prev[c].members[a];
            assert(objects[k] == prev[c].members[a]);
            assert(objects[objects.len() - 1] == last);
            assert(super::level_book::key_of(objects[k]) != super::level_book::key_of(objects[objects.len() - 1]));
        }
        lemma_latest_in_range(prev, last, threshold, prev.len());
        match latest_accepting(prev, last, threshold, prev.len()) {
            Some(t) => {
                assert(next == prev.update(t, joined_cluster(prev[t], last)));
                assert forall|c: int, a: int|
                    0 <= c < next.len() && 0 <= a < next[c].members.len() implies objects.contains(#[trigger] next[c].members[a]) by {
                    if c == t && a == prev[t].members.len() {
                        assert(next[c].members[a] == last);
                        assert(objects[objects.len() - 1] == last);
                    } else {
                        assert(next[c].members[a] == prev[c].members[a]);
                        assert(rest.contains(prev[c].members[a]));
                        let k = choose|k: int| 0 <= k < rest.len() && rest[k] == prev[c].members[a];
                        assert(objects[k] == rest[k]);
                    }
                }
                assert forall|c1: int, c2: int, a: int, b: int|
                    0 <= c1 < next.len() && 0 <= c2 < next.len() && c1 != c2 && 0 <= a < next[c1].members.len()
                        && 0 <= b < next[c2].members.len() implies (#[trigger] next[c1].members[a]).id_spec()
                        != (#[trigger] next[c2].members[b]).id_spec() by {
                    if c1 == t && a == prev[t].members.len() {
                        assert(next[c2].members[b] == prev[c2].members[b]);
                    } else if c2 == t && b == prev[t].members.len() {
                        assert(next[c1].members[a] == prev[c1].members[a]);
                    } else {
                        assert(next[c1].members[a] == prev[c1].members[a]);
                        assert(next[c2].members[b] == prev[c2].members[b]);
                    }
                }
                assert forall|c: int| 0 <= c < next.len() implies (#[trigger] next[c]).members.len() > 0 by {
                    if c != t {
                        assert(next[c] == prev[c]);
                    }
                }
            },
            None => {
                assert(next == prev.push(single_cluster(last)));
                assert forall|c: int, a: int|
                    0 <= c < next.len() && 0 <= a < next[c].members.len() implies objects.contains(#[trigger] next[c].members[a]) by {
                    if c == prev.len() {
                        assert(next[c].members[a] == last);
                        assert(objects[objects.len() - 1] == last);
                    } else {
                        assert(next[c] == prev[c]);
                        assert(rest.contains(prev[c].members[a]));
                        let k = choose|k: int| 0 <= k < rest.len() && rest[k] == prev[c].members[a];
                        assert(objects[k] == rest[k]);
                    }
                }
                assert forall|c1: int, c2: int, a: int, b: int|
                    0 <= c1 < next.len() && 0 <= c2 < next.len() && c1 != c2 && 0 <= a < next[c1].members.len()
                        && 0 <= b < next[c2].members.len() implies (#[trigger] next[c1].members[a]).id_spec()
                        != (#[trigger] next[c2].members[b]).id_spec() by {
                    if c1 == prev.len() {
                        assert(next[c2] == prev[c2]);
                        assert(next[c1].members[a] == last);
                    } else if c2 == prev.len() {
                        assert(next[c1] == prev[c1]);
                        assert(next[c2].members[b] == last);
                    } else {
                        assert(next[c1] == prev[c1]);
                        assert(next[c2] == prev[c2]);
                    }
                }
                assert forall|c: int| 0 <= c < next.len() implies (#[trigger] next[c]).members.len() > 0 by {
                    if c < prev.len() {
                        assert(next[c] == prev[c]);
                    }
                }
            },
        }
    }
}

/// A node stands for at most one of a set of disjoint clusters.
proof fn lemma_node_one_cluster(node: StructuralNode, clusters: Seq<Cluster>, q1: int, q2: int)
    requires
        clusters_disjoint(clusters),
        0 <= q1 < clusters.len(),
        0 <= q2 < clusters.len(),
        node_is_cluster(node, clusters[q1]),
        node_is_cluster(node, clusters[q2]),
    ensures
        q1 == q2,
{
    if q1 != q2 {
        let m = clusters[q1].members[0];
        assert(node.contributors@.contains(m.id_spec()));
        let b = choose|b: int| 0 <= b < clusters[q2].members.len() && (#[trigger] clusters[q2].members[b]).id_spec() == m.id_spec();
    }
}

/// Nodes that stand one for each of a set of disjoint clusters share no
/// contributor.
#[verifier::spinoff_prover]
#[verifier::rlimit(30)]
pub proof fn lemma_nodes_share_no_contributor(nodes: Seq<StructuralNode>, clusters: Seq<Cluster>)
    requires
        nodes_are_clusters(nodes, clusters),
        clusters_disjoint(clusters),
    ensures
        forall|i: int, j: int, c: LevelId|
            #![trigger nodes[i].contributors@.contains(c), nodes[j].contributors@.contains(c)]
            0 <= i < nodes.len() && 0 <= j < nodes.len() && nodes[i].contributors@.contains(c)
                && nodes[j].contributors@.contains(c) ==> i == j,
{
    let n = nodes.len() as int;
    assert forall|i: int, j: int, c: LevelId|
        #![trigger nodes[i].contributors@.contains(c), nodes[j].contributors@.contains(c)]
        0 <= i < nodes.len() && 0 <= j < nodes.len() && nodes[i].contributors@.contains(c)
            && nodes[j].contributors@.contains(c) implies i == j by {
        if i != j {
            let g = |k: int| choose|q: int| 0 <= q < n && node_is_cluster(nodes[k], clusters[q]);
            assert forall|k: int| 0 <= k < n implies 0 <= #[trigger] g(k) < n && node_is_cluster(nodes[k], clusters[g(k)]) by {
                assert(exists|q: int| 0 <= q < n && node_is_cluster(nodes[k], clusters[q]));
            }
            let gi = g(i);
            let gj = g(j);
            assert(gi == gj) by {
                let a = choose|a: int| 0 <= a < clusters[gi].members.len() && (#[trigger] clusters[gi].members[a]).id_spec() == c;
                let b = choose|b: int| 0 <= b < clusters[gj].members.len() && (#[trigger] clusters[gj].members[b]).id_spec() == c;
            }
            let dom = set_int_range(0, n).remove(j);
            lemma_int_range(0, n);
            assert(dom.map(g) =~= set_int_range(0, n)) by {
                assert forall|q: int| set_int_range(0, n).contains(q) implies dom.map(g).contains(q) by {
                    let k = choose|k: int| 0 <= k < n && node_is_cluster(nodes[k], #[trigger] clusters[q]);
                    lemma_node_one_cluster(nodes[k], clusters, q, g(k));
                    if k == j {
                        assert(dom.contains(i) && g(i) == q);
                    } else {
                        assert(dom.contains(k) && g(k) == q);
                    }
                }
            }
            lemma_map_size_bound(dom, dom.map(g), g);
        }
    }
}

/// The entries of `eligible_keyed` are objects of `objects`, and distinct
/// entries carry distinct identities when the objects do.
proof fn lemma_eligible_keyed(objects: Seq<StructuralObject>, instrument: InstrumentId, space: PriceSpace)
    ensures
        forall|x: (SortKey, StructuralObject)|
            #![trigger eligible_keyed(objects, instrument, space).contains(x)]
            eligible_keyed(objects, instrument, space).contains(x) ==> objects.contains(x.1),
        ids_unique(objects) ==> forall|i: int, j: int|
            0 <= i < eligible_keyed(objects, instrument, space).len() && 0 <= j < eligible_keyed(objects, instrument, space).len()
                && i != j ==> (#[trigger] eligible_keyed(objects, instrument, space)[i]).1.id_spec()
                != (#[trigger] eligible_keyed(objects, instrument, space)[j]).1.id_spec(),
    decreases objects.len(),
{
    if objects.len() > 0 {
        let rest = objects.drop_last();
        let last = objects.last();
        lemma_eligible_keyed(rest, instrument, space);
        let er = eligible_keyed(rest, instrument, space);
        let ek = eligible_keyed(objects, instrument, space);
        assert forall|x: (SortKey, StructuralObject)| #![trigger ek.contains(x)] ek.contains(x) implies objects.contains(x.1) by {
            let q = choose|q: int| 0 <= q < ek.len() && ek[q] == x;
            if q < er.len() {
                assert(ek[q] == er[q]);
                assert(er.contains(x));
                let k = choose|k: int| 0 <= k < rest.len() && rest[k] == x.1;
                assert(objects[k] == rest[k]);
            } else {
                assert(x.1 == last);
                assert(objects[objects.len() - 1] == last);
            }
        }
        if ids_unique(objects) {
            assert(ids_unique(rest)) by {
                assert forall|i: int, j: int| 0 <= i < rest.len() && 0 <= j < rest.len() && i != j implies super::level_book::key_of(#[trigger] rest[i])
                    != super::level_book::key_of(#[trigger] rest[j]) by {
                    assert(rest[i] == objects[i] && rest[j] == objects[j]);
                }
            }
            assert forall|i: int, j: int| 0 <= i < ek.len() && 0 <= j < ek.len() && i != j implies (#[trigger] ek[i]).1.id_spec()
                != (#[trigger] ek[j]).1.id_spec() by {
                if i < er.len() && j < er.len() {
                    assert(ek[i] == er[i] && ek[j] == er[j]);
                } else {
                    let p = if i < er.len() { i } else { j };
                    assert(ek[p] == er[p]);
                    assert(er.contains(er[p]));
                    let k = choose|k: int| 0 <= k < rest.len() && rest[k] == er[p].1;
                    assert(objects[k] == rest[k]);
                    assert(objects[objects.len() - 1] == last);
                    assert(super::level_book::key_of(objects[k]) != super::level_book::key_of(objects[objects.len() - 1]));
                }
            }
        }
    }
}

/// Objects with distinct identities keep them distinct in merge order.
pub proof fn lemma_order_ids_unique(
    order: Seq<(SortKey, StructuralObject)>,
    objects: Seq<StructuralObject>,
    instrument: InstrumentId,
    space: PriceSpace,
)
    requires
        merge_order(order, objects, instrument, space),
        ids_unique(objects),
    ensures
        ids_unique(order_objects(order)),
{
    broadcast use vstd::seq_lib::group_to_multiset_ensures;

    let ek = eligible_keyed(objects, instrument, space);
    lemma_eligible_keyed(objects, instrument, space);
    assert(ek.no_duplicates()) by {
        assert forall|i: int, j: int| 0 <= i < ek.len() && 0 <= j < ek.len() && i != j implies ek[i] != ek[j] by {
            assert(ek[i].1.id_spec() != ek[j].1.id_spec());
        }
    }
    ek.lemma_multiset_has_no_duplicates();
    order.lemma_multiset_has_no_duplicates_conv();
    let oo = order_objects(order);
    assert forall|i: int, j: int| 0 <= i < oo.len() && 0 <= j < oo.len() && i != j implies super::level_book::key_of(#[trigger] oo[i])
        != super::level_book::key_of(#[trigger] oo[j]) by {
        assert(order.contains(order[i]) && order.contains(order[j]));
        assert(order.to_multiset().count(order[i]) > 0);
        assert(order.to_multiset().count(order[j]) > 0);
        assert(ek.contains(order[i]) && ek.contains(order[j]));
        let p = choose|p: int| 0 <= p < ek.len() && ek[p] == order[i];
        let q = choose|q: int| 0 <= q < ek.len() && ek[q] == order[j];
        if p != q {
            assert(ek[p].1.id_spec() != ek[q].1.id_spec());
        } else {
            assert(order[i] != order[j]);
        }
    }
}

/// Corridors lie in the gaps between adjacent nodes: one between each pair
/// of neighbours, running from the upper bound of the node below to the
/// lower bound of the node above, as wide as that gap (zero when the nodes
/// touch or overlap, at most `i64::MAX`), and with that width in parts per
/// million of a positive ATR, truncated toward zero and clamped.
pub proof fn lemma_corridors_span_gaps(nodes: Seq<StructuralNode>, corridors: Seq<StructuralCorridor>, atr: int)
    requires
        corridors_follow(nodes, corridors, atr),
    ensures
        nodes.len() > 0 ==> corridors.len() + 1 == nodes.len(),
        nodes.len() == 0 ==> corridors.len() == 0,
        forall|i: int|
            0 <= i < corridors.len() ==> {
                &&& (#[trigger] corridors[i]).lower_node == nodes[i].id
                &&& corridors[i].upper_node == nodes[i + 1].id
                &&& corridors[i].lower_edge == nodes[i].upper
                &&& corridors[i].upper_edge == nodes[i + 1].lower
                &&& 0 <= corridors[i].width
                &&& nodes[i + 1].lower <= nodes[i].upper ==> corridors[i].width == 0
                &&& nodes[i].upper < nodes[i + 1].lower && nodes[i + 1].lower - nodes[i].upper <= i64::MAX
                    ==> corridors[i].width == nodes[i + 1].lower - nodes[i].upper
                &&& nodes[i + 1].lower - nodes[i].upper > i64::MAX ==> corridors[i].width == i64::MAX
                &&& atr <= 0 ==> corridors[i].width_atr_ppm == 0
                &&& atr > 0 && corridors[i].width * 1_000_000 / atr <= i64::MAX ==> corridors[i].width_atr_ppm
                    == corridors[i].width * 1_000_000 / atr
                &&& atr > 0 && corridors[i].width * 1_000_000 / atr > i64::MAX ==> corridors[i].width_atr_ppm
                    == i64::MAX
            },
{
    assert forall|i: int| 0 <= i < corridors.len() implies {
        &&& (#[trigger] corridors[i]).lower_node == nodes[i].id
        &&& corridors[i].upper_node == nodes[i + 1].id
        &&& corridors[i].lower_edge == nodes[i].upper
        &&& corridors[i].upper_edge == nodes[i + 1].lower
        &&& 0 <= corridors[i].width
        &&& nodes[i + 1].lower <= nodes[i].upper ==> corridors[i].width == 0
        &&& nodes[i].upper < nodes[i + 1].lower && nodes[i + 1].lower - nodes[i].upper <= i64::MAX
            ==> corridors[i].width == nodes[i + 1].lower - nodes[i].upper
        &&& nodes[i + 1].lower - nodes[i].upper > i64::MAX ==> corridors[i].width == i64::MAX
        &&& atr <= 0 ==> corridors[i].width_atr_ppm == 0
        &&& atr > 0 && corridors[i].width * 1_000_000 / atr <= i64::MAX ==> corridors[i].width_atr_ppm
            == corridors[i].width * 1_000_000 / atr
        &&& atr > 0 && corridors[i].width * 1_000_000 / atr > i64::MAX ==> corridors[i].width_atr_ppm
            == i64::MAX
    } by {
        assert(corridors[i] == corridor_spec(nodes[i], nodes[i + 1], atr));
        let w = corridors[i].width as int;
        if atr > 0 {
            assert(w * 1_000_000 / atr >= 0) by (nonlinear_arith)
                requires
                    w >= 0,
                    atr > 0,
            ;
        }
    }
}

/// A group of objects becoming one node.
struct Candidate {
    members: Vec<StructuralObject>,
    lower: i64,
    upper: i64,
    center: i64,
}

/// Facts a candidate keeps while it grows.
spec fn candidate_sound(
    candidate: Candidate,
    objects: Seq<StructuralObject>,
    instrument: InstrumentId,
    space: PriceSpace,
) -> bool {
    &&& candidate.members@.len() > 0
    &&& candidate.lower <= candidate.upper
    &&& forall|i: int|
        0 <= i < candidate.members@.len() ==> {
            &&& objects.contains(#[trigger] candidate.members@[i])
            &&& eligible(candidate.members@[i], instrument, space)
            &&& candidate.lower <= candidate.members@[i].lower_spec()
            &&& candidate.members@[i].upper_spec() <= candidate.upper
        }
    &&& forall|i: int, j: int|
        0 <= i < candidate.members@.len() && 0 <= j < candidate.members@.len() && i != j
            ==> compatible_spec(#[trigger] candidate.members@[i], #[trigger] candidate.members@[j])
}

/// The cluster a candidate stands for.
spec fn candidate_view(candidate: Candidate) -> Cluster {
    Cluster {
        members: candidate.members@,
        lower: candidate.lower as int,
        upper: candidate.upper as int,
        center: candidate.center as int,
    }
}

/// The candidates stand for the clusters, in order.
spec fn candidates_are(candidates: Seq<Candidate>, clusters: Seq<Cluster>) -> bool {
    &&& candidates.len() == clusters.len()
    &&& forall|c: int| 0 <= c < candidates.len() ==> #[trigger] candidate_view(candidates[c]) == clusters[c]
}

/// The object belongs to the candidate.
spec fn member_of(candidate: Candidate, object: StructuralObject) -> bool {
    candidate.members@.contains(object)
}

/// Exact midpoint of a band rounded toward the lower bound, without overflow.
fn midpoint(lower: i64, upper: i64) -> (center: i64)
    requires
        lower <= upper,
    ensures
        lower <= center <= upper,
        center == lower + (upper - lower) / 2,
{
    let half: i128 = (upper as i128 - lower as i128) / 2;
    (lower as i128 + half) as i64
}

impl Candidate {
    fn new(object: StructuralObject) -> (candidate: Candidate)
        requires
            object.lower_spec() <= object.upper_spec(),
        ensures
            candidate.members@ == seq![object],
            candidate.lower == object.lower_spec(),
            candidate.upper == object.upper_spec(),
            candidate.center == object.reference_spec(),
    {
        let mut members = Vec::new();
        members.push(object);
        Candidate {
            members,
            lower: object.lower(),
            upper: object.upper(),
            center: object.reference_price(),
        }
    }

    fn accepts(&self, object: &StructuralObject, threshold: i64) -> (accepted: bool)
        ensures
            accepted == (distance_spec(
                self.lower as int,
                self.upper as int,
                object.lower_spec() as int,
                object.upper_spec() as int,
            ) <= threshold && forall|i: int|
                0 <= i < self.members@.len() ==> compatible_spec(#[trigger] self.members@[i], *object)),
    {
        if geometry_distance(self.lower, self.upper, object.lower(), object.upper()) > threshold {
            return false;
        }
        let n = self.members.len();
        let mut i: usize = 0;
        while i < n
            invariant
                n == self.members@.len(),
                0 <= i <= n,
                forall|j: int| 0 <= j < i ==> compatible_spec(#[trigger] self.members@[j], *object),
            decreases n - i,
        {
            if !compatible(&self.members[i], object) {
                return false;
            }
            i = i + 1;
        }
        true
    }

    fn push(&mut self, object: StructuralObject)
        requires
            old(self).lower <= old(self).upper,
            object.lower_spec() <= object.upper_spec(),
        ensures
            final(self).members@ == old(self).members@.push(object),
            final(self).lower == (if object.lower_spec() < old(self).lower { object.lower_spec() } else { old(self).lower }),
            final(self).upper == (if object.upper_spec() > old(self).upper { object.upper_spec() } else { old(self).upper }),
            final(self).lower <= final(self).upper,
            final(self).center == final(self).lower + (final(self).upper - final(self).lower) / 2,
    {
        self.members.push(object);
        if object.lower() < self.lower {
            self.lower = object.lower();
        }
        if object.upper() > self.upper {
            self.upper = object.upper();
        }
        self.center = midpoint(self.lower, self.upper);
    }

    /// Sorted distinct identities of the members.
    fn contributor_ids(&self) -> (ids: Vec<LevelId>)
        ensures
            forall|c: LevelId| #![trigger ids@.contains(c)] ids@.contains(c) <==> exists|i: int|
                0 <= i < self.members@.len() && (#[trigger] self.members@[i]).id_spec() == c,
    {
        let mut keys: Vec<u64> = Vec::new();
        let n = self.members.len();
        let mut i: usize = 0;
        while i < n
            invariant
                n == self.members@.len(),
                0 <= i <= n,
                forall|a: int, b: int| 0 <= a < b < keys@.len() ==> #[trigger] keys@[a] < #[trigger] keys@[b],
                forall|k: u64| #![trigger keys@.contains(k)] keys@.contains(k) <==> exists|j: int|
                    0 <= j < i && (#[trigger] self.members@[j]).id_spec().0 == k,
            decreases n - i,
        {
            insert_unique_sorted(&mut keys, self.members[i].id().0);
            proof {
                assert forall|k: u64| #![trigger keys@.contains(k)] keys@.contains(k) <==> exists|j: int|
                    0 <= j < i + 1 && (#[trigger] self.members@[j]).id_spec().0 == k by {
                    if keys@.contains(k) && k == self.members@[i as int].id_spec().0 {
                        assert(self.members@[i as int].id_spec().0 == k);
                    }
                }
            }
            i = i + 1;
        }
        let mut ids: Vec<LevelId> = Vec::new();
        let m = keys.len();
        let mut j: usize = 0;
        while j < m
            invariant
                m == keys@.len(),
                0 <= j <= m,
                ids@.len() == j,
                forall|q: int| 0 <= q < j ==> #[trigger] ids@[q] == LevelId(keys@[q]),
            decreases m - j,
        {
            ids.push(LevelId(keys[j]));
            j = j + 1;
        }
        proof {
            assert forall|c: LevelId| #![trigger ids@.contains(c)] ids@.contains(c) <==> exists|i: int|
                0 <= i < self.members@.len() && (#[trigger] self.members@[i]).id_spec() == c by {
                if ids@.contains(c) {
                    let q = choose|q: int| 0 <= q < ids@.len() && #[trigger] ids@[q] == c;
                    assert(keys@.contains(c.0));
                }
                if exists|i: int| 0 <= i < self.members@.len() && (#[trigger] self.members@[i]).id_spec() == c {
                    let i = choose|i: int| 0 <= i < self.members@.len() && (#[trigger] self.members@[i]).id_spec() == c;
                    assert(self.members@[i].id_spec().0 == c.0);
                    assert(keys@.contains(c.0));
                    let q = choose|q: int| 0 <= q < keys@.len() && #[trigger] keys@[q] == c.0;
                    assert(ids@[q] == c);
                }
            }
        }
        ids
    }
}

/// Decodes a role rank.
fn role_from_rank(rank: u64) -> (role: LevelRole)
    ensures
        1 <= rank <= 11 ==> role_rank(role) == rank,
{
    if rank == 1 {
        LevelRole::OuterLow
    } else if rank == 2 {
        LevelRole::InnerLow
    } else if rank == 3 {
        LevelRole::FairValue
    } else if rank == 4 {
        LevelRole::InnerHigh
    } else if rank == 5 {
        LevelRole::OuterHigh
    } else if rank == 6 {
        LevelRole::LowerBoundary
    } else if rank == 7 {
        LevelRole::UpperBoundary
    } else if rank == 8 {
        LevelRole::Center
    } else if rank == 9 {
        LevelRole::LowerLiquidity
    } else if rank == 10 {
        LevelRole::UpperLiquidity
    } else {
        LevelRole::NeutralReference
    }
}

/// Decodes a family rank.
fn family_from_rank(rank: u64) -> (family: LevelFamily)
    ensures
        1 <= rank <= 8 ==> family_rank(family) == rank,
{
    if rank == 1 {
        LevelFamily::Session
    } else if rank == 2 {
        LevelFamily::Calendar
    } else if rank == 3 {
        LevelFamily::OpeningRange
    } else if rank == 4 {
        LevelFamily::RangeProjection
    } else if rank == 5 {
        LevelFamily::Profile
    } else if rank == 6 {
        LevelFamily::AdaptiveValue
    } else if rank == 7 {
        LevelFamily::Vwap
    } else {
        LevelFamily::Liquidity
    }
}

/// Distinct member roles in rank order.
fn member_roles(members: &Vec<StructuralObject>) -> (roles: Vec<LevelRole>)
    ensures
        forall|a: int, b: int| 0 <= a < b < roles@.len() ==> role_rank(#[trigger] roles@[a]) < role_rank(#[trigger] roles@[b]),
        forall|r: LevelRole| #![trigger roles@.contains(r)] roles@.contains(r) <==> exists|i: int|
            0 <= i < members@.len() && (#[trigger] members@[i]).role_spec() == r,
{
    let mut ranks: Vec<u64> = Vec::new();
    let n = members.len();
    let mut i: usize = 0;
    while i < n
        invariant
            n == members@.len(),
            0 <= i <= n,
            forall|a: int, b: int| 0 <= a < b < ranks@.len() ==> #[trigger] ranks@[a] < #[trigger] ranks@[b],
            forall|k: u64| #![trigger ranks@.contains(k)] ranks@.contains(k) <==> exists|j: int|
                0 <= j < i && role_rank((#[trigger] members@[j]).role_spec()) == k,
        decreases n - i,
    {
        insert_unique_sorted(&mut ranks, members[i].role().rank() as u64);
        proof {
            assert forall|k: u64| #![trigger ranks@.contains(k)] ranks@.contains(k) <==> exists|j: int|
                0 <= j < i + 1 && role_rank((#[trigger] members@[j]).role_spec()) == k by {
                if ranks@.contains(k) && k == role_rank(members@[i as int].role_spec()) {
                    assert(role_rank(members@[i as int].role_spec()) == k);
                }
            }
        }
        i = i + 1;
    }
    let mut roles: Vec<LevelRole> = Vec::new();
    let m = ranks.len();
    let mut j: usize = 0;
    while j < m
        invariant
            m == ranks@.len(),
            0 <= j <= m,
            roles@.len() == j,
            forall|k: u64| #![trigger ranks@.contains(k)] ranks@.contains(k) <==> exists|q: int|
                0 <= q < n && role_rank((#[trigger] members@[q]).role_spec()) == k,
            forall|q: int| 0 <= q < j ==> role_rank(#[trigger] roles@[q]) == ranks@[q],
        decreases m - j,
    {
        proof {
            assert(ranks@.contains(ranks@[j as int]));
        }
        roles.push(role_from_rank(ranks[j]));
        j = j + 1;
    }
    proof {
        assert forall|a: int, b: int| 0 <= a < b < roles@.len() implies role_rank(#[trigger] roles@[a]) < role_rank(
            #[trigger] roles@[b],
        ) by {
            assert(ranks@[a] < ranks@[b]);
        }
        assert forall|r: LevelRole| #![trigger roles@.contains(r)] roles@.contains(r) <==> exists|i: int|
            0 <= i < members@.len() && (#[trigger] members@[i]).role_spec() == r by {
            if roles@.contains(r) {
                let q = choose|q: int| 0 <= q < roles@.len() && #[trigger] roles@[q] == r;
                assert(ranks@.contains(ranks@[q]));
                let k = choose|k: int| 0 <= k < n && role_rank((#[trigger] members@[k]).role_spec()) == ranks@[q];
                assert(members@[k].role_spec() == r);
            }
            if exists|i: int| 0 <= i < members@.len() && (#[trigger] members@[i]).role_spec() == r {
                let k = choose|k: int| 0 <= k < members@.len() && (#[trigger] members@[k]).role_spec() == r;
                let rank = role_rank(r) as u64;
                assert(role_rank(members@[k].role_spec()) == rank);
                assert(ranks@.contains(rank));
                let q = choose|q: int| 0 <= q < ranks@.len() && #[trigger] ranks@[q] == rank;
                assert(role_rank(roles@[q]) == role_rank(r));
                assert(roles@[q] == r);
                assert(roles@.contains(r));
            }
        }
    }
    roles
}

/// Distinct member families in rank order.
fn member_families(members: &Vec<StructuralObject>) -> (families: Vec<LevelFamily>)
    ensures
        forall|a: int, b: int| 0 <= a < b < families@.len() ==> family_rank(#[trigger] families@[a]) < family_rank(
            #[trigger] families@[b],
        ),
        forall|f: LevelFamily| #![trigger families@.contains(f)] families@.contains(f) <==> exists|i: int|
            0 <= i < members@.len() && (#[trigger] members@[i]).family_spec() == f,
{
    let mut ranks: Vec<u64> = Vec::new();
    let n = members.len();
    let mut i: usize = 0;
    while i < n
        invariant
            n == members@.len(),
            0 <= i <= n,
            forall|a: int, b: int| 0 <= a < b < ranks@.len() ==> #[trigger] ranks@[a] < #[trigger] ranks@[b],
            forall|k: u64| #![trigger ranks@.contains(k)] ranks@.contains(k) <==> exists|j: int|
                0 <= j < i && family_rank((#[trigger] members@[j]).family_spec()) == k,
        decreases n - i,
    {
        insert_unique_sorted(&mut ranks, members[i].family().rank() as u64);
        proof {
            assert forall|k: u64| #![trigger ranks@.contains(k)] ranks@.contains(k) <==> exists|j: int|
                0 <= j < i + 1 && family_rank((#[trigger] members@[j]).family_spec()) == k by {
                if ranks@.contains(k) && k == family_rank(members@[i as int].family_spec()) {
                    assert(family_rank(members@[i as int].family_spec()) == k);
                }
            }
        }
        i = i + 1;
    }
    let mut families: Vec<LevelFamily> = Vec::new();
    let m = ranks.len();
    let mut j: usize = 0;
    while j < m
        invariant
            m == ranks@.len(),
            0 <= j <= m,
            families@.len() == j,
            forall|k: u64| #![trigger ranks@.contains(k)] ranks@.contains(k) <==> exists|q: int|
                0 <= q < n && family_rank((#[trigger] members@[q]).family_spec()) == k,
            forall|q: int| 0 <= q < j ==> family_rank(#[trigger] families@[q]) == ranks@[q],
        decreases m - j,
    {
        proof {
            assert(ranks@.contains(ranks@[j as int]));
        }
        families.push(family_from_rank(ranks[j]));
        j = j + 1;
    }
    proof {
        assert forall|a: int, b: int| 0 <= a < b < families@.len() implies family_rank(#[trigger] families@[a])
            < family_rank(#[trigger] families@[b]) by {
            assert(ranks@[a] < ranks@[b]);
        }
        assert forall|f: LevelFamily| #![trigger families@.contains(f)] families@.contains(f) <==> exists|i: int|
            0 <= i < members@.len() && (#[trigger] members@[i]).family_spec() == f by {
            if families@.contains(f) {
                let q = choose|q: int| 0 <= q < families@.len() && #[trigger] families@[q] == f;
                assert(ranks@.contains(ranks@[q]));
                let k = choose|k: int| 0 <= k < n && family_rank((#[trigger] members@[k]).family_spec()) == ranks@[q];
                assert(members@[k].family_spec() == f);
            }
            if exists|i: int| 0 <= i < members@.len() && (#[trigger] members@[i]).family_spec() == f {
                let k = choose|k: int| 0 <= k < members@.len() && (#[trigger] members@[k]).family_spec() == f;
                let rank = family_rank(f) as u64;
                assert(family_rank(members@[k].family_spec()) == rank);
                assert(ranks@.contains(rank));
                let q = choose|q: int| 0 <= q < ranks@.len() && #[trigger] ranks@[q] == rank;
                assert(family_rank(families@[q]) == family_rank(f));
                assert(families@[q] == f);
                assert(families@.contains(f));
            }
        }
    }
    families
}

/// Two objects may share a node.
fn compatible(left: &StructuralObject, right: &StructuralObject) -> (result: bool)
    ensures
        result == compatible_spec(*left, *right),
{
    let left_group = left.provenance().exclusive_group;
    let right_group = right.provenance().exclusive_group;
    if left_group != 0 && left_group == right_group {
        return false;
    }
    let ls = left.role().side();
    let rs = right.role().side();
    !((ls == RoleSide::Lower && rs == RoleSide::Upper) || (ls == RoleSide::Upper && rs == RoleSide::Lower))
}

/// Gap between two bands, zero when they touch or overlap.
fn geometry_distance(left_lower: i64, left_upper: i64, right_lower: i64, right_upper: i64) -> (distance: i64)
    ensures
        distance == distance_spec(left_lower as int, left_upper as int, right_lower as int, right_upper as int),
{
    if left_upper < right_lower {
        let gap: i128 = right_lower as i128 - left_upper as i128;
        if gap > i64::MAX as i128 {
            i64::MAX
        } else {
            gap as i64
        }
    } else if right_upper < left_lower {
        let gap: i128 = left_lower as i128 - right_upper as i128;
        if gap > i64::MAX as i128 {
            i64::MAX
        } else {
            gap as i64
        }
    } else {
        0
    }
}

/// No member role faces a role of the node across it, a lower against an
/// upper.
pub open spec fn roles_compatible(members: Seq<StructuralObject>, roles: Seq<LevelRole>) -> bool {
    forall|i: int, j: int|
        0 <= i < members.len() && 0 <= j < roles.len() ==> !opposed(
            role_side((#[trigger] members[i]).role_spec()),
            role_side(#[trigger] roles[j]),
        )
}

/// Number of members whose identity already contributes to the node.
pub open spec fn overlap_count(members: Seq<StructuralObject>, contributors: Seq<LevelId>) -> nat
    decreases members.len(),
{
    if members.len() == 0 {
        0
    } else {
        overlap_count(members.drop_last(), contributors) + (if contributors.contains(members.last().id_spec()) {
            1nat
        } else {
            0nat
        })
    }
}

/// No member role faces any role already in the node.
fn candidate_node_compatible(candidate: &Candidate, node: &StructuralNode) -> (compatible: bool)
    ensures
        compatible == roles_compatible(candidate.members@, node.roles@),
{
    let n = candidate.members.len();
    let mut i: usize = 0;
    while i < n
        invariant
            n == candidate.members@.len(),
            0 <= i <= n,
            forall|a: int, b: int|
                0 <= a < i && 0 <= b < node.roles@.len() ==> !opposed(
                    role_side((#[trigger] candidate.members@[a]).role_spec()),
                    role_side(#[trigger] node.roles@[b]),
                ),
        decreases n - i,
    {
        let side = candidate.members[i].role().side();
        let m = node.roles.len();
        let mut j: usize = 0;
        while j < m
            invariant
                m == node.roles@.len(),
                n == candidate.members@.len(),
                0 <= i < n,
                0 <= j <= m,
                side == role_side(candidate.members@[i as int].role_spec()),
                forall|b: int| 0 <= b < j ==> !opposed(side, role_side(#[trigger] node.roles@[b])),
            decreases m - j,
        {
            let other = node.roles.as_slice()[j].side();
            if (side == RoleSide::Lower && other == RoleSide::Upper) || (side == RoleSide::Upper
                && other == RoleSide::Lower) {
                proof {
                    assert(!roles_compatible(candidate.members@, node.roles@)) by {
                        assert(opposed(
                            role_side(candidate.members@[i as int].role_spec()),
                            role_side(node.roles@[j as int]),
                        ));
                    }
                }
                return false;
            }
            j = j + 1;
        }
        proof {
            assert forall|a: int, b: int|
                0 <= a < i + 1 && 0 <= b < node.roles@.len() implies !opposed(
                    role_side((#[trigger] candidate.members@[a]).role_spec()),
                    role_side(#[trigger] node.roles@[b]),
                ) by {
                if a == i {
                    assert(!opposed(side, role_side(node.roles@[b])));
                }
            }
        }
        i = i + 1;
    }
    true
}

/// Number of members that already contribute to the node.
fn contributor_overlap(candidate: &Candidate, node: &StructuralNode) -> (count: usize)
    ensures
        count == overlap_count(candidate.members@, node.contributors@),
        count <= candidate.members@.len(),
{
    let n = candidate.members.len();
    let mut count: usize = 0;
    let mut i: usize = 0;
    while i < n
        invariant
            n == candidate.members@.len(),
            0 <= i <= n,
            count <= i,
            count == overlap_count(candidate.members@.take(i as int), node.contributors@),
        decreases n - i,
    {
        let id = candidate.members[i].id();
        let m = node.contributors.len();
        let mut j: usize = 0;
        let mut found = false;
        while j < m
            invariant
                m == node.contributors@.len(),
                0 <= j <= m,
                found == (exists|k: int| 0 <= k < j && #[trigger] node.contributors@[k] == id),
            decreases m - j,
        {
            if node.contributors.as_slice()[j].0 == id.0 {
                found = true;
            }
            j = j + 1;
        }
        proof {
            let prefix = candidate.members@.take(i + 1);
            assert(prefix.drop_last() =~= candidate.members@.take(i as int));
            assert(prefix.last() == candidate.members@[i as int]);
            if found {
                let k = choose|k: int| 0 <= k < m && #[trigger] node.contributors@[k] == id;
                assert(node.contributors@.contains(id));
            } else {
                assert(!node.contributors@.contains(id));
            }
        }
        if found {
            count = count + 1;
        }
        i = i + 1;
    }
    proof {
        assert(candidate.members@.take(n as int) =~= candidate.members@);
    }
    count
}

/// `value` in parts per million of `denominator`, clamped; zero when the
/// denominator is not positive.
fn ratio_ppm(value: i64, denominator: i64) -> (ratio: i64)
    requires
        value >= 0,
    ensures
        ratio == ratio_ppm_spec(value as int, denominator as int),
{
    if denominator <= 0 {
        return 0;
    }
    let raw: i128 = (value as i128 * 1_000_000i128) / (denominator as i128);
    if raw < i64::MIN as i128 {
        i64::MIN
    } else if raw > i64::MAX as i128 {
        i64::MAX
    } else {
        raw as i64
    }
}

/// Corridors between adjacent nodes.
fn corridors(nodes: &Vec<StructuralNode>, atr: i64) -> (result: Vec<StructuralCorridor>)
    ensures
        corridors_follow(nodes@, result@, atr as int),
{
    let mut result: Vec<StructuralCorridor> = Vec::new();
    let n = nodes.len();
    if n == 0 {
        return result;
    }
    let mut i: usize = 0;
    while i + 1 < n
        invariant
            n == nodes@.len(),
            n > 0,
            0 <= i < n,
            result@.len() == i,
            forall|q: int| 0 <= q < i ==> #[trigger] result@[q] == corridor_spec(nodes@[q], nodes@[q + 1], atr as int),
        decreases n - i,
    {
        let lower_edge = nodes[i].upper;
        let upper_edge = nodes[i + 1].lower;
        let gap: i128 = upper_edge as i128 - lower_edge as i128;
        let width: i64 = if gap < 0 {
            0
        } else if gap > i64::MAX as i128 {
            i64::MAX
        } else {
            gap as i64
        };
        result.push(StructuralCorridor {
            lower_node: nodes[i].id,
            upper_node: nodes[i + 1].id,
            lower_edge,
            upper_edge,
            width,
            width_atr_ppm: ratio_ppm(width, atr),
        });
        i = i + 1;
    }
    result
}

/// Incremental node graph with stable node identities.
pub struct NodeBook {
    generation: u64,
    next_id: u64,
    previous: Vec<StructuralNode>,
    snapshot: Arc<StructuralGraphSnapshot>,
}

impl NodeBook {
    /// Generation of the last rebuild.
    pub closed spec fn generation_spec(&self) -> u64 {
        self.generation
    }

    /// The last published graph.
    pub closed spec fn snapshot_spec(&self) -> StructuralGraphSnapshot {
        *self.snapshot
    }

    /// The book remembers the identity and creation time of every node of
    /// the last published graph.
    pub closed spec fn wf(&self) -> bool {
        &&& self.previous@.len() == self.snapshot.nodes@.len()
        &&& forall|i: int|
            0 <= i < self.previous@.len() ==> (#[trigger] self.previous@[i]).id == self.snapshot.nodes@[i].id
                && self.previous@[i].created_at_ns == self.snapshot.nodes@[i].created_at_ns
    }

    /// An empty graph at generation zero.
    pub fn new() -> (book: NodeBook)
        ensures
            book.wf(),
            book.generation_spec() == 0,
            book.snapshot_spec().generation == 0,
            book.snapshot_spec().nodes@.len() == 0,
            book.snapshot_spec().corridors@.len() == 0,
            book.snapshot_spec().genealogy@.len() == 0,
    {
        NodeBook {
            generation: 0,
            next_id: 1,
            previous: Vec::new(),
            snapshot: Arc::new(
                StructuralGraphSnapshot {
                    generation: 0,
                    nodes: Vec::new(),
                    corridors: Vec::new(),
                    genealogy: Vec::new(),
                },
            ),
        }
    }

    /// The last published graph.
    pub fn snapshot(&self) -> (snapshot: Arc<StructuralGraphSnapshot>)
        ensures
            *snapshot == self.snapshot_spec(),
    {
        Arc::clone(&self.snapshot)
    }

    /// Rebuilds the graph from the active objects of `instrument` in
    /// `price_space`. The eligible objects, in merge-key order, go through
    /// one merge pass with the distance `spec.threshold(atr, noise, tick)`;
    /// each cluster of the pass becomes one node, and with distinct object
    /// identities each identity contributes to exactly one node. Nodes keep
    /// the identity of the previous node they continue, and the genealogy
    /// records creation, preservation, merges, splits and expiry.
    #[verifier::rlimit(50)]
    pub fn rebuild(
        &mut self,
        objects: &[StructuralObject],
        instrument: InstrumentId,
        price_space: PriceSpace,
        now_ns: i64,
        atr: i64,
        noise: i64,
        tick: i64,
        spec: NodeMergeSpec,
    ) -> (graph: Arc<StructuralGraphSnapshot>)
        requires
            old(self).wf(),
            forall|i: int| 0 <= i < objects@.len() ==> (#[trigger] objects@[i]).lower_spec() <= objects@[i].upper_spec(),
        ensures
            final(self).wf(),
            graph_sound(*graph, objects@, instrument, price_space, atr as int),
            forall|i: int| 0 <= i < graph.nodes@.len() ==> identity_follows(
                #[trigger] graph.nodes@[i],
                old(self).snapshot_spec().nodes@,
                instrument,
                now_ns,
            ),
            forall|i: int| 0 <= i < graph.nodes@.len() ==> genealogy_names(graph.genealogy@, (#[trigger] graph.nodes@[i]).id),
            forall|k: int| 0 <= k < graph.genealogy@.len() ==> speaks_of_previous(
                #[trigger] graph.genealogy@[k],
                old(self).snapshot_spec().nodes@,
            ),
            forall|i: int| 0 <= i < graph.nodes@.len() ==> (#[trigger] graph.nodes@[i]).updated_at_ns == now_ns,
            graph.generation == final(self).generation_spec(),
            final(self).generation_spec() == (if old(self).generation_spec() == u64::MAX {
                u64::MAX
            } else {
                (old(self).generation_spec() + 1) as u64
            }),
            final(self).snapshot_spec() == *graph,
            exists|order: Seq<(SortKey, StructuralObject)>| merge_order(order, objects@, instrument, price_space)
                && nodes_are_clusters(graph.nodes@, cluster_fold(order_objects(order), threshold_spec(spec, atr as int, noise as int, tick as int))),
            ids_unique(objects@) ==> forall|i: int, j: int, c: LevelId|
                #![trigger graph.nodes@[i].contributors@.contains(c), graph.nodes@[j].contributors@.contains(c)]
                0 <= i < graph.nodes@.len() && 0 <= j < graph.nodes@.len() && graph.nodes@[i].contributors@.contains(c)
                    && graph.nodes@[j].contributors@.contains(c) ==> i == j,
    {
        let threshold = spec.threshold(atr, noise, tick);
        // Eligible objects in (lower, upper, reference, identity) order.
        let mut keyed: Vec<(SortKey, StructuralObject)> = Vec::new();
        let n = objects.len();
        let mut i: usize = 0;
        while i < n
            invariant
                n == objects@.len(),
                0 <= i <= n,
                forall|x: (SortKey, StructuralObject)| #![trigger keyed@.contains(x)] keyed@.contains(x) ==> objects@.contains(x.1) && eligible(x.1, instrument, price_space),
                forall|j: int| 0 <= j < i && eligible(#[trigger] objects@[j], instrument, price_space) ==> exists|k: SortKey| keyed@.contains((k, objects@[j])),
                keyed@ == eligible_keyed(objects@.take(i as int), instrument, price_space),
            decreases n - i,
        {
            proof {
                assert(objects@.take(i as int + 1).drop_last() =~= objects@.take(i as int));
                assert(objects@.take(i as int + 1).last() == objects@[i as int]);
            }
            let object = objects[i];
            if object.is_active() && object.instrument_id() == instrument && object.price_space() == price_space {
                let key = SortKey {
                    a: object.lower() as i128,
                    b: object.upper() as i128,
                    c: object.reference_price() as i128,
                    d: object.id().0 as i128,
                };
                let ghost before = keyed@;
                keyed.push((key, object));
                proof {
                    assert(keyed@[keyed@.len() - 1] == (key, object));
                    assert forall|x: (SortKey, StructuralObject)| #![trigger keyed@.contains(x)] keyed@.contains(x) implies objects@.contains(x.1) && eligible(x.1, instrument, price_space) by {
                        let q = choose|q: int| 0 <= q < keyed@.len() && #[trigger] keyed@[q] == x;
                        if q < before.len() {
                            assert(before[q] == x);
                            assert(before.contains(x));
                        } else {
                            assert(objects@[i as int] == object);
                        }
                    }
                    assert forall|j: int| 0 <= j < i + 1 && eligible(#[trigger] objects@[j], instrument, price_space) implies exists|k: SortKey| keyed@.contains((k, objects@[j])) by {
                        if j < i {
                            let k = choose|k: SortKey| before.contains((k, objects@[j]));
                            let q = choose|q: int| 0 <= q < before.len() && #[trigger] before[q] == (k, objects@[j]);
                            assert(keyed@[q] == (k, objects@[j]));
                            assert(keyed@.contains((k, objects@[j])));
                        } else {
                            assert(keyed@.contains((key, objects@[j])));
                        }
                    }
                }
            }
            i = i + 1;
        }
        proof {
            assert(objects@.take(n as int) =~= objects@);
        }
        let active = sort_keyed(keyed);

        // Greedy clustering: each object joins the latest candidate that accepts it.
        let mut candidates = cluster_active(&active, threshold, Ghost(objects@), Ghost(instrument), Ghost(price_space));
        let ghost clusters = cluster_fold(order_objects(active@), threshold as int);
        proof {
            assert forall|o: StructuralObject| #![trigger objects@.contains(o)] objects@.contains(o) && eligible(o, instrument, price_space) implies exists|c: int| 0 <= c < candidates@.len() && member_of(#[trigger] candidates@[c], o) by {
                let p = choose|p: int| 0 <= p < objects@.len() && #[trigger] objects@[p] == o;
                let k = choose|k: SortKey| keyed@.contains((k, objects@[p]));
                assert(active@.contains((k, o)));
                let j = choose|j: int| 0 <= j < active@.len() && #[trigger] active@[j] == (k, o);
                assert(active@[j].1 == o);
            }
        }

        // Candidates in (center, lower, upper) order.
        let mut keyed_candidates: Vec<(SortKey, Candidate)> = Vec::new();
        let ghost all_candidates = candidates@;
        while candidates.len() > 0
            invariant
                forall|c: int| 0 <= c < all_candidates.len() ==> candidate_sound(#[trigger] all_candidates[c], objects@, instrument, price_space),
                forall|x: (SortKey, Candidate)| #![trigger keyed_candidates@.contains(x)] keyed_candidates@.contains(x) ==> all_candidates.contains(x.1),
                forall|c: Candidate| #![trigger all_candidates.contains(c)] all_candidates.contains(c) ==> candidates@.contains(c) || exists|k: SortKey| keyed_candidates@.contains((k, c)),
                forall|c: Candidate| #![trigger candidates@.contains(c)] candidates@.contains(c) ==> all_candidates.contains(c),
                candidates@.len() + keyed_candidates@.len() == all_candidates.len(),
            decreases candidates@.len(),
        {
            let ghost before = candidates@;
            let ghost before_keyed = keyed_candidates@;
            let candidate = candidates.pop().unwrap();
            let key = SortKey {
                a: candidate.center as i128,
                b: candidate.lower as i128,
                c: candidate.upper as i128,
                d: 0,
            };
            proof {
                assert(before == candidates@.push(candidate));
                assert(before[before.len() - 1] == candidate);
                assert(before.contains(candidate));
            }
            keyed_candidates.push((key, candidate));
            proof {
                assert(keyed_candidates@[keyed_candidates@.len() - 1] == (key, candidate));
                assert forall|x: (SortKey, Candidate)| #![trigger keyed_candidates@.contains(x)] keyed_candidates@.contains(x) implies all_candidates.contains(x.1) by {
                    let q = choose|q: int| 0 <= q < keyed_candidates@.len() && #[trigger] keyed_candidates@[q] == x;
                    if q < before_keyed.len() {
                        assert(before_keyed[q] == x);
                        assert(before_keyed.contains(x));
                    }
                }
                assert forall|c: Candidate| #![trigger all_candidates.contains(c)] all_candidates.contains(c) implies candidates@.contains(c) || exists|k: SortKey| keyed_candidates@.contains((k, c)) by {
                    if before.contains(c) {
                        let q = choose|q: int| 0 <= q < before.len() && #[trigger] before[q] == c;
                        if q < candidates@.len() {
                            assert(candidates@[q] == c);
                            assert(candidates@.contains(c));
                        } else {
                            assert(keyed_candidates@.contains((key, c)));
                        }
                    } else {
                        let k = choose|k: SortKey| before_keyed.contains((k, c));
                        let q = choose|q: int| 0 <= q < before_keyed.len() && #[trigger] before_keyed[q] == (k, c);
                        assert(keyed_candidates@[q] == (k, c));
                        assert(keyed_candidates@.contains((k, c)));
                    }
                }
                assert forall|c: Candidate| #![trigger candidates@.contains(c)] candidates@.contains(c) implies all_candidates.contains(c) by {
                    let q = choose|q: int| 0 <= q < candidates@.len() && #[trigger] candidates@[q] == c;
                    assert(before[q] == c);
                    assert(before.contains(c));
                }
            }
        }
        let sorted_candidates = sort_keyed(keyed_candidates);

        // Link each candidate to previous nodes it continues.
        let threshold_for_relations = threshold;
        let cn = sorted_candidates.len();
        let pn = self.previous.len();
        let mut relations: Vec<Vec<usize>> = Vec::new();
        let mut ci: usize = 0;
        while ci < cn
            invariant
                cn == sorted_candidates@.len(),
                pn == self.previous@.len(),
                0 <= ci <= cn,
                relations@.len() == ci,
                forall|r: int, q: int| 0 <= r < relations@.len() && 0 <= q < relations@[r]@.len() ==> #[trigger] relations@[r]@[q] < pn,
            decreases cn - ci,
        {
            let candidate = &sorted_candidates[ci].1;
            let mut related: Vec<usize> = Vec::new();
            let mut pi: usize = 0;
            while pi < pn
                invariant
                    pn == self.previous@.len(),
                    0 <= pi <= pn,
                    forall|q: int| 0 <= q < related@.len() ==> #[trigger] related@[q] < pn,
                decreases pn - pi,
            {
                let node = &self.previous[pi];
                let overlap = contributor_overlap(candidate, node) > 0;
                let nearby = geometry_distance(candidate.lower, candidate.upper, node.lower, node.upper)
                    <= threshold_for_relations;
                if overlap || (nearby && candidate_node_compatible(candidate, node)) {
                    related.push(pi);
                }
                pi = pi + 1;
            }
            relations.push(related);
            proof {
                assert forall|r: int, q: int| 0 <= r < relations@.len() && 0 <= q < relations@[r]@.len() implies #[trigger] relations@[r]@[q] < pn by {
                }
            }
            ci = ci + 1;
        }

        // Each candidate inherits at most one previous node: the one sharing the
        // most contributors, then the closest center, then the smallest identity.
        let mut used_previous: Vec<bool> = Vec::new();
        let mut u: usize = 0;
        while u < pn
            invariant
                0 <= u <= pn,
                used_previous@.len() == u,
            decreases pn - u,
        {
            used_previous.push(false);
            u = u + 1;
        }
        let mut assigned: Vec<Option<usize>> = Vec::new();
        let mut ci: usize = 0;
        while ci < cn
            invariant
                cn == sorted_candidates@.len(),
                cn == relations@.len(),
                pn == self.previous@.len(),
                used_previous@.len() == pn,
                0 <= ci <= cn,
                assigned@.len() == ci,
                forall|r: int, q: int| 0 <= r < relations@.len() && 0 <= q < relations@[r]@.len() ==> #[trigger] relations@[r]@[q] < pn,
                forall|q: int| 0 <= q < assigned@.len() ==> (#[trigger] assigned@[q] matches Some(p) ==> p < pn),
            decreases cn - ci,
        {
            let candidate = &sorted_candidates[ci].1;
            let related = &relations[ci];
            let mut best: Option<usize> = None;
            let mut best_overlap: usize = 0;
            let mut best_distance: u128 = 0;
            let mut best_id: u64 = 0;
            let rn = related.len();
            let mut r: usize = 0;
            while r < rn
                invariant
                    rn == related@.len(),
                    0 <= r <= rn,
                    used_previous@.len() == pn,
                    pn == self.previous@.len(),
                    forall|q: int| 0 <= q < related@.len() ==> #[trigger] related@[q] < pn,
                    best matches Some(p) ==> p < pn,
                decreases rn - r,
            {
                let index = related[r];
                if !used_previous[index] {
                    let prior = &self.previous[index];
                    let overlap = contributor_overlap(candidate, prior);
                    let diff: i128 = candidate.center as i128 - prior.center as i128;
                    let distance: u128 = if diff < 0 {
                        (-diff) as u128
                    } else {
                        diff as u128
                    };
                    let better = match best {
                        None => true,
                        Some(_) => overlap > best_overlap || (overlap == best_overlap && (distance
                            < best_distance || (distance == best_distance && prior.id.0 < best_id))),
                    };
                    if better {
                        best = Some(index);
                        best_overlap = overlap;
                        best_distance = distance;
                        best_id = prior.id.0;
                    }
                }
                r = r + 1;
            }
            if let Some(index) = best {
                used_previous.set(index, true);
            }
            assigned.push(best);
            ci = ci + 1;
        }

        // Nodes from candidates.
        let mut keyed_nodes: Vec<(SortKey, StructuralNode)> = Vec::new();
        let mut node_ids: Vec<StructuralNodeId> = Vec::new();
        let mut ci: usize = 0;
        while ci < cn
            invariant
                cn == sorted_candidates@.len(),
                cn == assigned@.len(),
                pn == self.previous@.len(),
                self.generation == old(self).generation,
                self.previous == old(self).previous,
                old(self).wf(),
                0 <= ci <= cn,
                node_ids@.len() == ci,
                keyed_nodes@.len() == ci,
                forall|q: int| 0 <= q < ci ==> (#[trigger] keyed_nodes@[q]).1.id == node_ids@[q],
                forall|q: int| 0 <= q < assigned@.len() ==> (#[trigger] assigned@[q] matches Some(p) ==> p < pn),
                forall|x: (SortKey, Candidate)| #![trigger sorted_candidates@.contains(x)] sorted_candidates@.contains(x) ==> all_candidates.contains(x.1),
                forall|c: int| 0 <= c < all_candidates.len() ==> candidate_sound(#[trigger] all_candidates[c], objects@, instrument, price_space),
                forall|x: (SortKey, StructuralNode)| #![trigger keyed_nodes@.contains(x)] keyed_nodes@.contains(x) ==> x.0 == node_key(x.1) && node_sound(x.1, objects@, instrument, price_space) && x.1.updated_at_ns == now_ns
                    && identity_follows(x.1, old(self).snapshot_spec().nodes@, instrument, now_ns),
                forall|j: int| 0 <= j < ci ==> exists|x: (SortKey, StructuralNode)| #![trigger keyed_nodes@.contains(x)] keyed_nodes@.contains(x) && forall|o: StructuralObject| member_of(#[trigger] sorted_candidates@[j].1, o) ==> x.1.contributors@.contains(o.id_spec()),
                forall|q: int| 0 <= q < ci ==> node_is_cluster(#[trigger] keyed_nodes@[q].1, candidate_view(sorted_candidates@[q].1)),
            decreases cn - ci,
        {
            let candidate = &sorted_candidates[ci].1;
            proof {
                assert(sorted_candidates@.contains(sorted_candidates@[ci as int]));
                let c = choose|c: int| 0 <= c < all_candidates.len() && #[trigger] all_candidates[c] == *candidate;
            }
            let (id, created_at_ns) = match assigned[ci] {
                Some(index) => {
                    proof {
                        assert(old(self).snapshot_spec().nodes@[index as int].id == self.previous@[index as int].id);
                    }
                    (self.previous[index].id, self.previous[index].created_at_ns)
                },
                None => {
                    let high: u64 = instrument.0 as u64;
                    let counter: u64 = self.next_id;
                    let low: u64 = counter & 0xFFFF_FFFFu64;
                    proof {
                        assert(low < 0x1_0000_0000u64) by (bit_vector)
                            requires
                                low == counter & 0xFFFF_FFFFu64,
                        ;
                        assert(((high << 32u64) | low) >> 32u64 == high) by (bit_vector)
                            requires
                                high < 0x1_0000_0000u64,
                                low < 0x1_0000_0000u64,
                        ;
                    }
                    let id = StructuralNodeId((high << 32u64) | low);
                    self.next_id = if self.next_id == u64::MAX {
                        u64::MAX
                    } else {
                        self.next_id + 1
                    };
                    (id, now_ns)
                },
            };
            let contributors = candidate.contributor_ids();
            let node = StructuralNode {
                id,
                instrument_id: instrument,
                price_space,
                lower: candidate.lower,
                upper: candidate.upper,
                center: candidate.center,
                roles: RoleList::from_vec(member_roles(&candidate.members)),
                contributors: IdList::from_vec(contributors),
                families: FamilyList::from_vec(member_families(&candidate.members)),
                created_at_ns,
                updated_at_ns: now_ns,
            };
            let key = SortKey {
                a: node.center as i128,
                b: node.lower as i128,
                c: node.upper as i128,
                d: node.id.0 as i128,
            };
            proof {
                let cand = *candidate;
                assert(node_sound(node, objects@, instrument, price_space)) by {
                    assert forall|c: LevelId| #![trigger node.contributors@.contains(c)] node.contributors@.contains(c) implies exists|o: StructuralObject| #![trigger objects@.contains(o)] objects@.contains(o) && eligible(o, instrument, price_space) && o.id_spec() == c by {
                        let i = choose|i: int| 0 <= i < cand.members@.len() && (#[trigger] cand.members@[i]).id_spec() == c;
                        assert(objects@.contains(cand.members@[i]));
                    }
                    assert(ids_unique(objects@) ==> forall|a: StructuralObject, b: StructuralObject|
                        #![trigger objects@.contains(a), objects@.contains(b)]
                        objects@.contains(a) && objects@.contains(b) && eligible(a, instrument, price_space) && eligible(b, instrument, price_space) && node.contributors@.contains(a.id_spec()) && node.contributors@.contains(b.id_spec()) && a.id_spec() != b.id_spec() ==> compatible_spec(a, b)) by {
                        if ids_unique(objects@) {
                            assert forall|a: StructuralObject, b: StructuralObject|
                                #![trigger objects@.contains(a), objects@.contains(b)]
                                objects@.contains(a) && objects@.contains(b) && eligible(a, instrument, price_space) && eligible(b, instrument, price_space) && node.contributors@.contains(a.id_spec()) && node.contributors@.contains(b.id_spec()) && a.id_spec() != b.id_spec() implies compatible_spec(a, b) by {
                                let i = choose|i: int| 0 <= i < cand.members@.len() && (#[trigger] cand.members@[i]).id_spec() == a.id_spec();
                                let j = choose|j: int| 0 <= j < cand.members@.len() && (#[trigger] cand.members@[j]).id_spec() == b.id_spec();
                                lemma_same_key(objects@, cand.members@[i], a);
                                lemma_same_key(objects@, cand.members@[j], b);
                            }
                        }
                    }
                    assert(ids_unique(objects@) ==> forall|a: StructuralObject|
                        #![trigger objects@.contains(a)]
                        objects@.contains(a) && eligible(a, instrument, price_space) && node.contributors@.contains(a.id_spec()) ==> node.lower <= a.lower_spec() && a.upper_spec() <= node.upper) by {
                        if ids_unique(objects@) {
                            assert forall|a: StructuralObject|
                                #![trigger objects@.contains(a)]
                                objects@.contains(a) && eligible(a, instrument, price_space) && node.contributors@.contains(a.id_spec()) implies node.lower <= a.lower_spec() && a.upper_spec() <= node.upper by {
                                let i = choose|i: int| 0 <= i < cand.members@.len() && (#[trigger] cand.members@[i]).id_spec() == a.id_spec();
                                lemma_same_key(objects@, cand.members@[i], a);
                            }
                        }
                    }
                    assert(ids_unique(objects@) ==> forall|r: LevelRole|
                        #![trigger node.roles@.contains(r)]
                        node.roles@.contains(r) <==> exists|o: StructuralObject|
                            #![trigger objects@.contains(o)]
                            objects@.contains(o) && eligible(o, instrument, price_space) && node.contributors@.contains(o.id_spec())
                                && o.role_spec() == r) by {
                        if ids_unique(objects@) {
                            assert forall|r: LevelRole|
                                #![trigger node.roles@.contains(r)]
                                node.roles@.contains(r) <==> exists|o: StructuralObject|
                                    #![trigger objects@.contains(o)]
                                    objects@.contains(o) && eligible(o, instrument, price_space) && node.contributors@.contains(o.id_spec())
                                        && o.role_spec() == r by {
                                if node.roles@.contains(r) {
                                    let i = choose|i: int| 0 <= i < cand.members@.len() && (#[trigger] cand.members@[i]).role_spec() == r;
                                    let o = cand.members@[i];
                                    assert(objects@.contains(o));
                                    assert(node.contributors@.contains(o.id_spec()));
                                }
                                if exists|o: StructuralObject|
                                    #![trigger objects@.contains(o)]
                                    objects@.contains(o) && eligible(o, instrument, price_space) && node.contributors@.contains(o.id_spec())
                                        && o.role_spec() == r {
                                    let o = choose|o: StructuralObject|
                                        #![trigger objects@.contains(o)]
                                        objects@.contains(o) && eligible(o, instrument, price_space) && node.contributors@.contains(o.id_spec())
                                            && o.role_spec() == r;
                                    let i = choose|i: int| 0 <= i < cand.members@.len() && (#[trigger] cand.members@[i]).id_spec() == o.id_spec();
                                    lemma_same_key(objects@, cand.members@[i], o);
                                    assert(node.roles@.contains(r));
                                }
                            }
                        }
                    }
                    assert(ids_unique(objects@) ==> forall|f: LevelFamily|
                        #![trigger node.families@.contains(f)]
                        node.families@.contains(f) <==> exists|o: StructuralObject|
                            #![trigger objects@.contains(o)]
                            objects@.contains(o) && eligible(o, instrument, price_space) && node.contributors@.contains(o.id_spec())
                                && o.family_spec() == f) by {
                        if ids_unique(objects@) {
                            assert forall|f: LevelFamily|
                                #![trigger node.families@.contains(f)]
                                node.families@.contains(f) <==> exists|o: StructuralObject|
                                    #![trigger objects@.contains(o)]
                                    objects@.contains(o) && eligible(o, instrument, price_space) && node.contributors@.contains(o.id_spec())
                                        && o.family_spec() == f by {
                                if node.families@.contains(f) {
                                    let i = choose|i: int| 0 <= i < cand.members@.len() && (#[trigger] cand.members@[i]).family_spec() == f;
                                    let o = cand.members@[i];
                                    assert(objects@.contains(o));
                                    assert(node.contributors@.contains(o.id_spec()));
                                }
                                if exists|o: StructuralObject|
                                    #![trigger objects@.contains(o)]
                                    objects@.contains(o) && eligible(o, instrument, price_space) && node.contributors@.contains(o.id_spec())
                                        && o.family_spec() == f {
                                    let o = choose|o: StructuralObject|
                                        #![trigger objects@.contains(o)]
                                        objects@.contains(o) && eligible(o, instrument, price_space) && node.contributors@.contains(o.id_spec())
                                            && o.family_spec() == f;
                                    let i = choose|i: int| 0 <= i < cand.members@.len() && (#[trigger] cand.members@[i]).id_spec() == o.id_spec();
                                    lemma_same_key(objects@, cand.members@[i], o);
                                    assert(node.families@.contains(f));
                                }
                            }
                        }
                    }
                }
            }
            proof {
                assert(node_is_cluster(node, candidate_view(*candidate))) by {
                    assert(node.contributors@ == contributors@);
                    let view = candidate_view(*candidate);
                    assert(view.members == candidate.members@);
                    assert forall|c: LevelId| #![trigger node.contributors@.contains(c)] node.contributors@.contains(c) <==> exists|i: int|
                        0 <= i < view.members.len() && (#[trigger] view.members[i]).id_spec() == c by {
                        assert(contributors@.contains(c) <==> exists|i: int|
                            0 <= i < candidate.members@.len() && (#[trigger] candidate.members@[i]).id_spec() == c);
                    }
                }
            }
            let ghost before = keyed_nodes@;
            keyed_nodes.push((key, node));
            node_ids.push(id);
            proof {
                assert forall|q: int| 0 <= q < ci + 1 implies node_is_cluster(#[trigger] keyed_nodes@[q].1, candidate_view(sorted_candidates@[q].1)) by {
                    if q < ci {
                        assert(keyed_nodes@[q] == before[q]);
                    }
                }
                assert(keyed_nodes@[keyed_nodes@.len() - 1] == (key, node));
                assert forall|x: (SortKey, StructuralNode)| #![trigger keyed_nodes@.contains(x)] keyed_nodes@.contains(x) implies x.0 == node_key(x.1) && node_sound(x.1, objects@, instrument, price_space) && x.1.updated_at_ns == now_ns
                    && identity_follows(x.1, old(self).snapshot_spec().nodes@, instrument, now_ns) by {
                    let q = choose|q: int| 0 <= q < keyed_nodes@.len() && #[trigger] keyed_nodes@[q] == x;
                    if q < before.len() {
                        assert(before[q] == x);
                        assert(before.contains(x));
                    }
                }
                assert forall|j: int| 0 <= j < ci + 1 implies exists|x: (SortKey, StructuralNode)| #![trigger keyed_nodes@.contains(x)] keyed_nodes@.contains(x) && forall|o: StructuralObject| member_of(#[trigger] sorted_candidates@[j].1, o) ==> x.1.contributors@.contains(o.id_spec()) by {
                    if j < ci {
                        let x = choose|x: (SortKey, StructuralNode)| #![trigger before.contains(x)] before.contains(x) && forall|o: StructuralObject| member_of(#[trigger] sorted_candidates@[j].1, o) ==> x.1.contributors@.contains(o.id_spec());
                        let q = choose|q: int| 0 <= q < before.len() && #[trigger] before[q] == x;
                        assert(keyed_nodes@[q] == x);
                        assert(keyed_nodes@.contains(x));
                    } else {
                        assert(keyed_nodes@.contains((key, node)));
                        assert forall|o: StructuralObject| member_of(#[trigger] sorted_candidates@[j].1, o) implies node.contributors@.contains(o.id_spec()) by {
                            let q = choose|q: int| 0 <= q < candidate.members@.len() && #[trigger] candidate.members@[q] == o;
                            assert(candidate.members@[q].id_spec() == o.id_spec());
                        }
                    }
                }
            }
            ci = ci + 1;
        }

        // Genealogy: how each node relates to the previous generation.
        let mut genealogy: Vec<NodeGenealogy> = Vec::new();
        let mut ni: usize = 0;
        while ni < cn
            invariant
                cn == relations@.len(),
                cn == node_ids@.len(),
                pn == self.previous@.len(),
                0 <= ni <= cn,
                genealogy@.len() == ni,
                forall|q: int| 0 <= q < ni ==> names_node(#[trigger] genealogy@[q], node_ids@[q]),
                forall|r: int, q: int| 0 <= r < relations@.len() && 0 <= q < relations@[r]@.len() ==> #[trigger] relations@[r]@[q] < pn,
            decreases cn - ni,
        {
            let related = &relations[ni];
            let id = node_ids[ni];
            if related.len() == 0 {
                genealogy.push(NodeGenealogy::Created(id));
            } else if related.len() > 1 {
                let mut keys: Vec<u64> = Vec::new();
                let rn = related.len();
                let mut r: usize = 0;
                while r < rn
                    invariant
                        rn == related@.len(),
                        0 <= r <= rn,
                        pn == self.previous@.len(),
                        forall|q: int| 0 <= q < related@.len() ==> #[trigger] related@[q] < pn,
                        forall|a: int, b: int| 0 <= a < b < keys@.len() ==> #[trigger] keys@[a] < #[trigger] keys@[b],
                    decreases rn - r,
                {
                    let prior = self.previous[related[r]].id;
                    if prior.0 != id.0 {
                        insert_unique_sorted(&mut keys, prior.0);
                    }
                    r = r + 1;
                }
                genealogy.push(NodeGenealogy::Merged { into: id, from: NodeIdList::from_vec(node_ids_from(&keys)) });
            } else {
                genealogy.push(NodeGenealogy::Preserved(id));
            }
            ni = ni + 1;
        }
        let ghost named = genealogy@;
        let mut pi: usize = 0;
        while pi < pn
            invariant
                cn == relations@.len(),
                cn == node_ids@.len(),
                pn == self.previous@.len(),
                0 <= pi <= pn,
                self.previous == old(self).previous,
                old(self).wf(),
                named.len() == cn,
                genealogy@.len() >= cn,
                genealogy@.subrange(0, cn as int) == named,
                forall|q: int| 0 <= q < cn ==> names_node(#[trigger] named[q], node_ids@[q]),
                forall|k: int| cn <= k < genealogy@.len() ==> speaks_of_previous(
                    #[trigger] genealogy@[k],
                    old(self).snapshot_spec().nodes@,
                ),
            decreases pn - pi,
        {
            let mut into: Vec<StructuralNodeId> = Vec::new();
            let mut ci: usize = 0;
            while ci < cn
                invariant
                    cn == relations@.len(),
                    cn == node_ids@.len(),
                    0 <= ci <= cn,
                decreases cn - ci,
            {
                let related = &relations[ci];
                let rn = related.len();
                let mut r: usize = 0;
                let mut hit = false;
                while r < rn
                    invariant
                        rn == related@.len(),
                        0 <= r <= rn,
                    decreases rn - r,
                {
                    if related[r] == pi {
                        hit = true;
                    }
                    r = r + 1;
                }
                if hit {
                    into.push(node_ids[ci]);
                }
                ci = ci + 1;
            }
            proof {
                assert(old(self).snapshot_spec().nodes@[pi as int].id == self.previous@[pi as int].id);
            }
            let ghost before = genealogy@;
            if into.len() > 1 {
                genealogy.push(NodeGenealogy::Split { from: self.previous[pi].id, into: NodeIdList::from_vec(into) });
            } else if into.len() == 0 {
                genealogy.push(NodeGenealogy::Expired(self.previous[pi].id));
            }
            proof {
                assert(genealogy@.subrange(0, cn as int) =~= before.subrange(0, cn as int));
                assert forall|k: int| cn <= k < genealogy@.len() implies speaks_of_previous(
                    #[trigger] genealogy@[k],
                    old(self).snapshot_spec().nodes@,
                ) by {
                    if k < before.len() {
                        assert(genealogy@[k] == before[k]);
                    }
                }
            }
            pi = pi + 1;
        }

        // Nodes in (center, lower, upper, identity) order, then corridors.
        let sorted_nodes = sort_keyed(keyed_nodes);
        let mut nodes: Vec<StructuralNode> = Vec::new();
        let mut previous: Vec<StructuralNode> = Vec::new();
        let sn = sorted_nodes.len();
        let mut rest = sorted_nodes;
        let ghost all_sorted = rest@;
        let mut k: usize = 0;
        while rest.len() > 0
            invariant
                nodes@.len() + rest@.len() == all_sorted.len(),
                rest@ == all_sorted.subrange(nodes@.len() as int, all_sorted.len() as int),
                forall|q: int| 0 <= q < nodes@.len() ==> #[trigger] nodes@[q] == all_sorted[q].1,
                previous@.len() == nodes@.len(),
                forall|q: int| 0 <= q < previous@.len() ==> (#[trigger] previous@[q]).id == nodes@[q].id
                    && previous@[q].created_at_ns == nodes@[q].created_at_ns,
            decreases rest@.len(),
        {
            let (_, node) = rest.remove(0);
            previous.push(clone_node(&node));
            nodes.push(node);
        }
        proof {
            assert forall|i: int| 0 <= i < nodes@.len() implies node_sound(#[trigger] nodes@[i], objects@, instrument, price_space) && nodes@[i].updated_at_ns == now_ns
                && identity_follows(nodes@[i], old(self).snapshot_spec().nodes@, instrument, now_ns) by {
                assert(all_sorted.contains(all_sorted[i]));
            }
            assert forall|i: int, j: int| 0 <= i < j < nodes@.len() implies key_le(node_key(#[trigger] nodes@[i]), node_key(#[trigger] nodes@[j])) by {
                assert(all_sorted.contains(all_sorted[i]));
                assert(all_sorted.contains(all_sorted[j]));
            }
            assert forall|o: StructuralObject| #![trigger objects@.contains(o)] objects@.contains(o) && eligible(o, instrument, price_space) implies exists|i: int| 0 <= i < nodes@.len() && (#[trigger] nodes@[i]).contributors@.contains(o.id_spec()) by {
                assert(exists|c: int| 0 <= c < all_candidates.len() && member_of(#[trigger] all_candidates[c], o));
                let c = choose|c: int| 0 <= c < all_candidates.len() && member_of(#[trigger] all_candidates[c], o);
                assert(all_candidates.contains(all_candidates[c]));
                assert(exists|kk: SortKey| keyed_candidates@.contains((kk, all_candidates[c])));
                let kk = choose|kk: SortKey| keyed_candidates@.contains((kk, all_candidates[c]));
                assert(sorted_candidates@.contains((kk, all_candidates[c])));
                let j = choose|j: int| 0 <= j < sorted_candidates@.len() && #[trigger] sorted_candidates@[j] == (kk, all_candidates[c]);
                assert(exists|x: (SortKey, StructuralNode)| #![trigger keyed_nodes@.contains(x)] keyed_nodes@.contains(x) && forall|o: StructuralObject| member_of(#[trigger] sorted_candidates@[j].1, o) ==> x.1.contributors@.contains(o.id_spec()));
                let x = choose|x: (SortKey, StructuralNode)| #![trigger keyed_nodes@.contains(x)] keyed_nodes@.contains(x) && forall|o: StructuralObject| member_of(#[trigger] sorted_candidates@[j].1, o) ==> x.1.contributors@.contains(o.id_spec());
                assert(member_of(sorted_candidates@[j].1, o));
                assert(x.1.contributors@.contains(o.id_spec()));
                assert(all_sorted.contains(x));
                let i = choose|i: int| 0 <= i < all_sorted.len() && #[trigger] all_sorted[i] == x;
                assert(nodes@[i] == x.1);
                assert(nodes@[i].contributors@.contains(o.id_spec()));
            }
        }
        let ghost nodes_view = nodes@;
        let ghost genealogy_view = genealogy@;
        proof {
            assert forall|k: int| 0 <= k < genealogy_view.len() implies speaks_of_previous(
                #[trigger] genealogy_view[k],
                old(self).snapshot_spec().nodes@,
            ) by {
                if k < cn {
                    assert(genealogy_view[k] == named[k]);
                    assert(names_node(named[k], node_ids@[k]));
                }
            }
            assert forall|i: int| 0 <= i < nodes_view.len() implies exists|k: int|
                0 <= k < genealogy_view.len() && names_node(#[trigger] genealogy_view[k], (#[trigger] nodes_view[i]).id) by {
                let x = all_sorted[i];
                assert(all_sorted.contains(x));
                assert(keyed_nodes@.contains(x));
                let q = choose|q: int| 0 <= q < keyed_nodes@.len() && #[trigger] keyed_nodes@[q] == x;
                assert(node_ids@[q] == x.1.id);
                assert(genealogy_view[q] == named[q]);
                assert(names_node(genealogy_view[q], nodes_view[i].id));
            }
        }
        proof {
            assert(nodes_are_clusters(nodes_view, clusters)) by {
                assert forall|i: int| 0 <= i < nodes_view.len() implies exists|c: int| 0 <= c < clusters.len() && node_is_cluster(#[trigger] nodes_view[i], clusters[c]) by {
                    let x = all_sorted[i];
                    assert(all_sorted.contains(x));
                    assert(keyed_nodes@.contains(x));
                    let q = choose|q: int| 0 <= q < keyed_nodes@.len() && #[trigger] keyed_nodes@[q] == x;
                    assert(node_is_cluster(keyed_nodes@[q].1, candidate_view(sorted_candidates@[q].1)));
                    assert(sorted_candidates@.contains(sorted_candidates@[q]));
                    assert(all_candidates.contains(sorted_candidates@[q].1));
                    let c = choose|c: int| 0 <= c < all_candidates.len() && #[trigger] all_candidates[c] == sorted_candidates@[q].1;
                    assert(candidate_view(all_candidates[c]) == clusters[c]);
                    assert(nodes_view[i] == x.1);
                }
                assert forall|c: int| 0 <= c < clusters.len() implies exists|i: int| 0 <= i < nodes_view.len() && node_is_cluster(nodes_view[i], #[trigger] clusters[c]) by {
                    assert(candidate_view(all_candidates[c]) == clusters[c]);
                    assert(all_candidates.contains(all_candidates[c]));
                    let kk = choose|kk: SortKey| keyed_candidates@.contains((kk, all_candidates[c]));
                    assert(sorted_candidates@.contains((kk, all_candidates[c])));
                    let j = choose|j: int| 0 <= j < sorted_candidates@.len() && #[trigger] sorted_candidates@[j] == (kk, all_candidates[c]);
                    assert(node_is_cluster(keyed_nodes@[j].1, candidate_view(sorted_candidates@[j].1)));
                    assert(keyed_nodes@.contains(keyed_nodes@[j]));
                    assert(all_sorted.contains(keyed_nodes@[j]));
                    let i = choose|i: int| 0 <= i < all_sorted.len() && #[trigger] all_sorted[i] == keyed_nodes@[j];
                    assert(nodes_view[i] == keyed_nodes@[j].1);
                }
            }
        }
        let corridor_list = corridors(&nodes, atr);
        self.generation = if self.generation == u64::MAX {
            u64::MAX
        } else {
            self.generation + 1
        };
        self.previous = previous;
        let graph = Arc::new(
            StructuralGraphSnapshot {
                generation: self.generation,
                nodes,
                corridors: corridor_list,
                genealogy,
            },
        );
        proof {
            assert(graph.nodes@ == nodes_view);
            assert(graph.genealogy@ == genealogy_view);
            assert forall|i: int| 0 <= i < graph.nodes@.len() implies genealogy_names(graph.genealogy@, (#[trigger] graph.nodes@[i]).id) by {
                assert(nodes_view[i] == graph.nodes@[i]);
                let k = choose|k: int| 0 <= k < genealogy_view.len() && names_node(#[trigger] genealogy_view[k], nodes_view[i].id);
                assert(graph.genealogy@[k] == genealogy_view[k]);
            }
            assert forall|o: StructuralObject| #![trigger objects@.contains(o)] objects@.contains(o) && eligible(o, instrument, price_space) implies exists|i: int| 0 <= i < graph.nodes@.len() && (#[trigger] graph.nodes@[i]).contributors@.contains(o.id_spec()) by {
                let i = choose|i: int| 0 <= i < nodes_view.len() && (#[trigger] nodes_view[i]).contributors@.contains(o.id_spec());
                assert(graph.nodes@[i] == nodes_view[i]);
            }
        }
        proof {
            assert(graph.nodes@ == nodes_view);
            assert(merge_order(active@, objects@, instrument, price_space));
            if ids_unique(objects@) {
                lemma_order_ids_unique(active@, objects@, instrument, price_space);
                lemma_fold_disjoint(order_objects(active@), threshold as int);
                lemma_nodes_share_no_contributor(nodes_view, clusters);
            }
        }
        self.snapshot = Arc::clone(&graph);
        graph
    }
}

/// The merge pass: each object, in the order given, joins the last
/// candidate that takes it, or starts a candidate of its own.
fn cluster_active(
    active: &Vec<(SortKey, StructuralObject)>,
    threshold: i64,
    Ghost(objects): Ghost<Seq<StructuralObject>>,
    Ghost(instrument): Ghost<InstrumentId>,
    Ghost(space): Ghost<PriceSpace>,
) -> (candidates: Vec<Candidate>)
    requires
        forall|x: (SortKey, StructuralObject)| #![trigger active@.contains(x)] active@.contains(x) ==> objects.contains(x.1) && eligible(x.1, instrument, space),
        forall|i: int| 0 <= i < objects.len() ==> (#[trigger] objects[i]).lower_spec() <= objects[i].upper_spec(),
    ensures
        forall|c: int| 0 <= c < candidates@.len() ==> candidate_sound(#[trigger] candidates@[c], objects, instrument, space),
        forall|j: int| #![trigger active@[j]] 0 <= j < active@.len() ==> exists|c: int| 0 <= c < candidates@.len() && member_of(#[trigger] candidates@[c], active@[j].1),
        candidates_are(candidates@, cluster_fold(order_objects(active@), threshold as int)),
{
    let mut candidates: Vec<Candidate> = Vec::new();
    let m = active.len();
    let mut a: usize = 0;
    while a < m
        invariant
            m == active@.len(),
            0 <= a <= m,
            forall|x: (SortKey, StructuralObject)| #![trigger active@.contains(x)] active@.contains(x) ==> objects.contains(x.1) && eligible(x.1, instrument, space),
            forall|i: int| 0 <= i < objects.len() ==> (#[trigger] objects[i]).lower_spec() <= objects[i].upper_spec(),
            forall|c: int| 0 <= c < candidates@.len() ==> candidate_sound(#[trigger] candidates@[c], objects, instrument, space),
            forall|j: int| #![trigger active@[j]] 0 <= j < a ==> exists|c: int| 0 <= c < candidates@.len() && member_of(#[trigger] candidates@[c], active@[j].1),
            candidates_are(candidates@, cluster_fold(order_objects(active@).take(a as int), threshold as int)),
        decreases m - a,
    {
        let object = active[a].1;
        proof {
            assert(active@.contains(active@[a as int]));
            let p = choose|p: int| 0 <= p < objects.len() && #[trigger] objects[p] == object;
        }
        let ghost folded = cluster_fold(order_objects(active@).take(a as int), threshold as int);
        let mut target: Option<usize> = None;
        let mut c = candidates.len();
        while c > 0
            invariant
                0 <= c <= candidates@.len(),
                candidates_are(candidates@, folded),
                target is None ==> latest_accepting(folded, object, threshold as int, folded.len()) == latest_accepting(folded, object, threshold as int, c as nat),
                target matches Some(t) ==> latest_accepting(folded, object, threshold as int, folded.len()) == Some(t as int),
                target matches Some(t) ==> t < candidates@.len() && candidates@[t as int].members@.len() >= 0,
                target matches Some(t) ==> forall|i: int| 0 <= i < candidates@[t as int].members@.len() ==> compatible_spec(#[trigger] candidates@[t as int].members@[i], object),
            decreases c,
        {
            proof {
                assert(candidate_view(candidates@[c - 1]) == folded[c - 1]);
            }
            proof {
                assert(latest_accepting(folded, object, threshold as int, c as nat) == if cluster_accepts(folded[c - 1], object, threshold as int) {
                    Some(c - 1)
                } else {
                    latest_accepting(folded, object, threshold as int, (c - 1) as nat)
                });
            }
            if target.is_none() {
                let accepted = candidates[c - 1].accepts(&object, threshold);
                proof {
                    let view = candidate_view(candidates@[c - 1]);
                    assert(view.members == candidates@[c - 1].members@);
                    assert(accepted == cluster_accepts(view, object, threshold as int));
                }
                if accepted {
                    target = Some(c - 1);
                }
            }
            c = c - 1;
        }
        proof {
            let prefix = order_objects(active@).take(a as int + 1);
            assert(prefix.drop_last() =~= order_objects(active@).take(a as int));
            assert(prefix.last() == object);
        }
        let ghost before = candidates@;
        match target {
            Some(t) => {
                let mut chosen = candidates.remove(t);
                let ghost old_chosen = chosen;
                chosen.push(object);
                proof {
                    assert(candidate_sound(old_chosen, objects, instrument, space)) by {
                        assert(before[t as int] == old_chosen);
                    }
                    assert forall|i: int, j: int|
                        0 <= i < chosen.members@.len() && 0 <= j < chosen.members@.len() && i != j
                            implies compatible_spec(#[trigger] chosen.members@[i], #[trigger] chosen.members@[j]) by {
                        let last = old_chosen.members@.len() as int;
                        if i == last {
                            assert(compatible_spec(old_chosen.members@[j], object));
                        } else if j == last {
                            assert(compatible_spec(old_chosen.members@[i], object));
                        } else {
                            assert(chosen.members@[i] == old_chosen.members@[i]);
                            assert(chosen.members@[j] == old_chosen.members@[j]);
                        }
                    }
                    assert(candidate_sound(chosen, objects, instrument, space)) by {
                        assert forall|i: int| 0 <= i < chosen.members@.len() implies {
                            &&& objects.contains(#[trigger] chosen.members@[i])
                            &&& eligible(chosen.members@[i], instrument, space)
                            &&& chosen.lower <= chosen.members@[i].lower_spec()
                            &&& chosen.members@[i].upper_spec() <= chosen.upper
                        } by {
                            if i < old_chosen.members@.len() {
                                assert(chosen.members@[i] == old_chosen.members@[i]);
                            }
                        }
                    }
                }
                candidates.insert(t, chosen);
                proof {
                    assert(candidates@ =~= before.update(t as int, chosen));
                    assert(candidate_view(chosen) == joined_cluster(folded[t as int], object)) by {
                        assert(candidate_view(before[t as int]) == folded[t as int]);
                    }
                    let next = cluster_fold(order_objects(active@).take(a as int + 1), threshold as int);
                    assert(next == folded.update(t as int, joined_cluster(folded[t as int], object)));
                    assert forall|q: int| 0 <= q < candidates@.len() implies #[trigger] candidate_view(candidates@[q]) == next[q] by {
                        if q != t {
                            assert(candidates@[q] == before[q]);
                        }
                    }
                    assert forall|c: int| 0 <= c < candidates@.len() implies candidate_sound(#[trigger] candidates@[c], objects, instrument, space) by {
                        if c != t {
                            assert(candidates@[c] == before[c]);
                        }
                    }
                    assert forall|j: int| #![trigger active@[j]] 0 <= j < a + 1 implies exists|c: int| 0 <= c < candidates@.len() && member_of(#[trigger] candidates@[c], active@[j].1) by {
                        if j < a {
                            let c = choose|c: int| 0 <= c < before.len() && member_of(#[trigger] before[c], active@[j].1);
                            if c == t {
                                let q = choose|q: int| 0 <= q < old_chosen.members@.len() && #[trigger] old_chosen.members@[q] == active@[j].1;
                                assert(candidates@[t as int].members@[q] == active@[j].1);
                                assert(member_of(candidates@[t as int], active@[j].1));
                            } else {
                                assert(candidates@[c] == before[c]);
                            }
                        } else {
                            let last = old_chosen.members@.len() as int;
                            assert(candidates@[t as int].members@[last] == object);
                            assert(member_of(candidates@[t as int], active@[j].1));
                        }
                    }
                }
            },
            None => {
                let fresh = Candidate::new(object);
                candidates.push(fresh);
                proof {
                    let next = cluster_fold(order_objects(active@).take(a as int + 1), threshold as int);
                    assert(next == folded.push(single_cluster(object)));
                    assert forall|q: int| 0 <= q < candidates@.len() implies #[trigger] candidate_view(candidates@[q]) == next[q] by {
                        if q < before.len() {
                            assert(candidates@[q] == before[q]);
                        }
                    }
                    assert(candidate_sound(fresh, objects, instrument, space)) by {
                        assert(fresh.members@[0] == object);
                    }
                    assert forall|c: int| 0 <= c < candidates@.len() implies candidate_sound(#[trigger] candidates@[c], objects, instrument, space) by {
                        if c < before.len() {
                            assert(candidates@[c] == before[c]);
                        }
                    }
                    assert forall|j: int| #![trigger active@[j]] 0 <= j < a + 1 implies exists|c: int| 0 <= c < candidates@.len() && member_of(#[trigger] candidates@[c], active@[j].1) by {
                        if j < a {
                            let c = choose|c: int| 0 <= c < before.len() && member_of(#[trigger] before[c], active@[j].1);
                            assert(candidates@[c] == before[c]);
                        } else {
                            let last = candidates@.len() - 1;
                            assert(candidates@[last].members@[0] == object);
                            assert(member_of(candidates@[last], active@[j].1));
                        }
                    }
                }
            },
        }
        a = a + 1;
    }
    proof {
        assert(order_objects(active@).take(m as int) =~= order_objects(active@));
    }
    candidates
}

/// Two elements of a list with unique identities that share an identity are
/// the same element.
proof fn lemma_same_key(objects: Seq<StructuralObject>, a: StructuralObject, b: StructuralObject)
    requires
        ids_unique(objects),
        objects.contains(a),
        objects.contains(b),
        a.id_spec() == b.id_spec(),
    ensures
        a == b,
{
    let i = choose|i: int| 0 <= i < objects.len() && objects[i] == a;
    let j = choose|j: int| 0 <= j < objects.len() && objects[j] == b;
    if i != j {
        assert(super::level_book::key_of(objects[i]) != super::level_book::key_of(objects[j]));
    }
}

/// Node identities for sorted keys.
fn node_ids_from(keys: &Vec<u64>) -> (ids: Vec<StructuralNodeId>)
    ensures
        ids@.len() == keys@.len(),
        forall|i: int| 0 <= i < keys@.len() ==> #[trigger] ids@[i] == StructuralNodeId(keys@[i]),
{
    let mut ids: Vec<StructuralNodeId> = Vec::new();
    let n = keys.len();
    let mut i: usize = 0;
    while i < n
        invariant
            n == keys@.len(),
            0 <= i <= n,
            ids@.len() == i,
            forall|q: int| 0 <= q < i ==> #[trigger] ids@[q] == StructuralNodeId(keys@[q]),
        decreases n - i,
    {
        ids.push(StructuralNodeId(keys[i]));
        i = i + 1;
    }
    ids
}

/// A field-by-field copy of a node.
fn clone_node(node: &StructuralNode) -> (copy: StructuralNode)
    ensures
        copy.id == node.id,
        copy.lower == node.lower,
        copy.upper == node.upper,
        copy.center == node.center,
        copy.roles@ == node.roles@,
        copy.contributors@ == node.contributors@,
        copy.families@ == node.families@,
        copy.created_at_ns == node.created_at_ns,
{
    StructuralNode {
        id: node.id,
        instrument_id: node.instrument_id,
        price_space: node.price_space,
        lower: node.lower,
        upper: node.upper,
        center: node.center,
        roles: node.roles.clone(),
        contributors: node.contributors.clone(),
        families: node.families.clone(),
        created_at_ns: node.created_at_ns,
        updated_at_ns: node.updated_at_ns,
    }
}

} // verus!
