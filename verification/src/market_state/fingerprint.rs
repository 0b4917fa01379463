//! Stable BLAKE3 fingerprints of structural snapshots and mutation streams:
//! every field is framed little-endian in a fixed order and every list is
//! prefixed by its length, so a fingerprint depends on each field and on
//! nothing else.

use super::contracts::{
    LevelFamily, LevelId, LevelKind, LevelProvenance, LevelRole, LevelState, MarketLocation,
    MarketLocationSnapshot, NodeGenealogy, PriceSpace, StructuralCorridor, StructuralMarketSnapshot,
    StructuralMutation, StructuralNode, StructuralNodeId, StructuralObject, StructuralQuality, VolumeQuality,
    family_rank, price_space_rank, role_rank,
};
use crate::data_plane::timeframe_code_spec;
use crate::digest::{blake3_digest, blake3_hash, le_u16, le_u64, push_le_u16, push_le_u64, push_str};
use crate::market_state::inline_lists::NodeIdList;
use vstd::prelude::*;

verus! {

/// A 32-byte BLAKE3 fingerprint.
#[derive(Clone, Copy, Debug, PartialEq, Eq, Hash)]
pub struct StructuralFingerprint(pub [u8; 32]);

// ---------------------------------------------------------------------------
// Field framings.
// ---------------------------------------------------------------------------

/// Little-endian bytes of a 32-bit value.
pub open spec fn le_u32(value: u32) -> Seq<u8> {
    Seq::new(4, |i: int| ((value >> ((8 * i) as u32)) & 0xffu32) as u8)
}

/// Little-endian bytes of a signed 64-bit value.
pub open spec fn le_i64(value: i64) -> Seq<u8> {
    le_u64(value as u64)
}

/// Wire code of a level kind.
pub open spec fn kind_code(kind: LevelKind) -> u16 {
    match kind {
        LevelKind::CurrentSessionHigh => 1,
        LevelKind::CurrentSessionLow => 2,
        LevelKind::PreviousSessionHigh => 3,
        LevelKind::PreviousSessionLow => 4,
        LevelKind::DailyExtremeUpperBand => 5,
        LevelKind::DailyExtremeLowerBand => 6,
        LevelKind::OpeningRangeHigh => 10,
        LevelKind::OpeningRangeLow => 11,
        LevelKind::OpeningRangeMid => 12,
        LevelKind::RangeProjection => 20,
        LevelKind::ProfilePoc => 30,
        LevelKind::ProfileVah => 31,
        LevelKind::ProfileVal => 32,
        LevelKind::VolKittC1 => 40,
        LevelKind::VolKittC2 => 41,
        LevelKind::VolKittC3 => 42,
        LevelKind::VolKittC4 => 43,
        LevelKind::VolKittC5 => 44,
        LevelKind::VolKittCog => 45,
        LevelKind::SessionVwap => 50,
        LevelKind::UpperLiquidityShelf => 60,
        LevelKind::LowerLiquidityShelf => 61,
    }
}

/// Wire code of a level state.
pub open spec fn state_byte(state: LevelState) -> u8 {
    match state {
        LevelState::Developing => 1,
        LevelState::Frozen => 2,
        LevelState::Superseded => 3,
        LevelState::Expired => 4,
    }
}

/// Wire code of a volume quality.
pub open spec fn volume_byte(quality: VolumeQuality) -> u8 {
    match quality {
        VolumeQuality::ExchangeVolume => 1,
        VolumeQuality::VenueVolume => 2,
        VolumeQuality::TickVolumeProxy => 3,
        VolumeQuality::TimeAtPriceProxy => 4,
        VolumeQuality::Unavailable => 5,
    }
}

/// One byte for a flag.
pub open spec fn flag_byte(flag: bool) -> u8 {
    if flag {
        1
    } else {
        0
    }
}

/// Identity, classification, times and provenance of an object.
pub open spec fn common_bytes(object: StructuralObject, created_at_ns: i64, effective_at_ns: i64, updated_at_ns: i64) -> Seq<u8> {
    let provenance = object.provenance_spec();
    le_u64(object.id_spec().0) + le_u32(object.instrument_spec().0) + seq![price_space_rank(object.price_space_spec())]
        + le_u16(kind_code(object.kind_spec())) + seq![family_rank(object.family_spec())] + seq![
        role_rank(object.role_spec()),
    ] + seq![state_byte(object.state_spec())] + le_i64(created_at_ns) + le_i64(effective_at_ns) + le_i64(updated_at_ns)
        + provenance_bytes(provenance)
}

/// Provenance of an object.
pub open spec fn provenance_bytes(provenance: LevelProvenance) -> Seq<u8> {
    le_u16(provenance.producer_id.0) + le_u64(provenance.first_sequence.0) + le_u64(provenance.last_sequence.0) + le_u32(
        provenance.derivation_version.0,
    ) + le_u32(provenance.calendar_id.0) + le_u16(
        match provenance.timeframe {
            Some(timeframe) => timeframe_code_spec(timeframe),
            None => 0,
        },
    ) + le_i64(provenance.epoch_ns) + le_u64(provenance.exclusive_group) + le_u16(provenance.ordinal)
}

/// An object: a tag, the common fields, then its prices.
pub open spec fn object_bytes(object: StructuralObject) -> Seq<u8> {
    match object {
        StructuralObject::Level(level) => seq![1u8] + common_bytes(
            object,
            level.created_at_ns,
            level.effective_at_ns,
            level.updated_at_ns,
        ) + le_i64(level.price),
        StructuralObject::Band(band) => seq![2u8] + common_bytes(
            object,
            band.created_at_ns,
            band.effective_at_ns,
            band.updated_at_ns,
        ) + le_i64(band.lower) + le_i64(band.upper) + le_i64(band.reference_price),
    }
}

pub open spec fn objects_bytes(objects: Seq<StructuralObject>) -> Seq<u8>
    decreases objects.len(),
{
    if objects.len() == 0 {
        Seq::empty()
    } else {
        objects_bytes(objects.drop_last()) + object_bytes(objects.last())
    }
}

pub open spec fn roles_bytes(roles: Seq<LevelRole>) -> Seq<u8>
    decreases roles.len(),
{
    if roles.len() == 0 {
        Seq::empty()
    } else {
        roles_bytes(roles.drop_last()) + seq![role_rank(roles.last())]
    }
}

pub open spec fn families_bytes(families: Seq<LevelFamily>) -> Seq<u8>
    decreases families.len(),
{
    if families.len() == 0 {
        Seq::empty()
    } else {
        families_bytes(families.drop_last()) + seq![family_rank(families.last())]
    }
}

pub open spec fn level_ids_bytes(ids: Seq<LevelId>) -> Seq<u8>
    decreases ids.len(),
{
    if ids.len() == 0 {
        Seq::empty()
    } else {
        level_ids_bytes(ids.drop_last()) + le_u64(ids.last().0)
    }
}

pub open spec fn node_ids_bytes(ids: Seq<StructuralNodeId>) -> Seq<u8>
    decreases ids.len(),
{
    if ids.len() == 0 {
        Seq::empty()
    } else {
        node_ids_bytes(ids.drop_last()) + le_u64(ids.last().0)
    }
}

/// A node: identity, place, span, times, then its counted roles, families
/// and contributors.
pub open spec fn node_bytes(node: StructuralNode) -> Seq<u8> {
    le_u64(node.id.0) + le_u32(node.instrument_id.0) + seq![price_space_rank(node.price_space)] + le_i64(node.lower)
        + le_i64(node.upper) + le_i64(node.center) + le_i64(node.created_at_ns) + le_i64(node.updated_at_ns) + le_u64(
        node.roles@.len() as u64,
    ) + roles_bytes(node.roles@) + le_u64(node.families@.len() as u64) + families_bytes(node.families@) + le_u64(
        node.contributors@.len() as u64,
    ) + level_ids_bytes(node.contributors@)
}

pub open spec fn nodes_bytes(nodes: Seq<StructuralNode>) -> Seq<u8>
    decreases nodes.len(),
{
    if nodes.len() == 0 {
        Seq::empty()
    } else {
        nodes_bytes(nodes.drop_last()) + node_bytes(nodes.last())
    }
}

pub open spec fn corridor_bytes(corridor: StructuralCorridor) -> Seq<u8> {
    le_u64(corridor.lower_node.0) + le_u64(corridor.upper_node.0) + le_i64(corridor.lower_edge) + le_i64(
        corridor.upper_edge,
    ) + le_i64(corridor.width) + le_i64(corridor.width_atr_ppm)
}

pub open spec fn corridors_bytes(corridors: Seq<StructuralCorridor>) -> Seq<u8>
    decreases corridors.len(),
{
    if corridors.len() == 0 {
        Seq::empty()
    } else {
        corridors_bytes(corridors.drop_last()) + corridor_bytes(corridors.last())
    }
}

pub open spec fn genealogy_bytes(genealogy: NodeGenealogy) -> Seq<u8> {
    match genealogy {
        NodeGenealogy::Created(id) => seq![1u8] + le_u64(id.0),
        NodeGenealogy::Preserved(id) => seq![2u8] + le_u64(id.0),
        NodeGenealogy::Merged { into, from } => seq![3u8] + le_u64(into.0) + le_u64(from@.len() as u64) + node_ids_bytes(
            from@,
        ),
        NodeGenealogy::Split { from, into } => seq![4u8] + le_u64(from.0) + le_u64(into@.len() as u64) + node_ids_bytes(
            into@,
        ),
        NodeGenealogy::Expired(id) => seq![5u8] + le_u64(id.0),
    }
}

pub open spec fn genealogies_bytes(entries: Seq<NodeGenealogy>) -> Seq<u8>
    decreases entries.len(),
{
    if entries.len() == 0 {
        Seq::empty()
    } else {
        genealogies_bytes(entries.drop_last()) + genealogy_bytes(entries.last())
    }
}

pub open spec fn location_bytes(location: MarketLocation) -> Seq<u8> {
    match location {
        MarketLocation::Unavailable => seq![0u8],
        MarketLocation::InsideNode(id) => seq![1u8] + le_u64(id.0),
        MarketLocation::Between { lower, upper } => seq![2u8] + le_u64(lower.0) + le_u64(upper.0),
        MarketLocation::BelowKnownStructure { nearest } => seq![3u8] + le_u64(nearest.0),
        MarketLocation::AboveKnownStructure { nearest } => seq![4u8] + le_u64(nearest.0),
    }
}

pub open spec fn optional_bytes(value: Option<i64>) -> Seq<u8> {
    match value {
        Some(value) => seq![1u8] + le_i64(value),
        None => seq![0u8],
    }
}

pub open spec fn located_bytes(location: MarketLocationSnapshot) -> Seq<u8> {
    location_bytes(location.location) + optional_bytes(location.distance_to_lower) + optional_bytes(
        location.distance_to_upper,
    ) + optional_bytes(location.distance_to_lower_atr_ppm) + optional_bytes(location.distance_to_upper_atr_ppm)
}

pub open spec fn quality_bytes(quality: StructuralQuality) -> Seq<u8> {
    seq![
        flag_byte(quality.price_fresh),
        volume_byte(quality.volume_quality),
        flag_byte(quality.adaptive_value_available),
        flag_byte(quality.volume_profile_available),
        flag_byte(quality.tpo_profile_available),
        flag_byte(quality.calendar_valid),
        flag_byte(quality.gaps_present),
        flag_byte(quality.revisions_pending),
    ]
}

/// The bytes a snapshot fingerprint is the digest of.
pub open spec fn snapshot_bytes(snapshot: StructuralMarketSnapshot) -> Seq<u8> {
    vstd::utf8::encode_utf8("northstar-structural-snapshot-v1"@) + le_u32(snapshot.instrument_id.0) + seq![
        price_space_rank(snapshot.price_space),
    ] + le_i64(snapshot.as_of_ns) + le_u64(snapshot.journal_sequence.0) + le_u64(snapshot.derivation_generation)
        + le_i64(snapshot.reference_price) + le_u64(snapshot.levels@.len() as u64) + objects_bytes(snapshot.levels@)
        + le_u64(snapshot.graph.generation) + le_u64(snapshot.graph.nodes@.len() as u64) + nodes_bytes(
        snapshot.graph.nodes@,
    ) + le_u64(snapshot.graph.corridors@.len() as u64) + corridors_bytes(snapshot.graph.corridors@) + le_u64(
        snapshot.graph.genealogy@.len() as u64,
    ) + genealogies_bytes(snapshot.graph.genealogy@) + located_bytes(snapshot.location) + quality_bytes(
        snapshot.quality,
    )
}

pub open spec fn mutation_bytes(mutation: StructuralMutation) -> Seq<u8> {
    match mutation {
        StructuralMutation::Created(object) => seq![1u8] + object_bytes(object),
        StructuralMutation::Updated(object) => seq![2u8] + object_bytes(object),
        StructuralMutation::Frozen { id, at_ns } => seq![3u8] + le_u64(id.0) + le_i64(at_ns),
        StructuralMutation::Superseded { old, new, at_ns } => seq![4u8] + le_u64(old.0) + object_bytes(new) + le_i64(
            at_ns,
        ),
        StructuralMutation::Expired { id, at_ns } => seq![5u8] + le_u64(id.0) + le_i64(at_ns),
    }
}

pub open spec fn mutations_bytes(mutations: Seq<StructuralMutation>) -> Seq<u8>
    decreases mutations.len(),
{
    if mutations.len() == 0 {
        Seq::empty()
    } else {
        mutations_bytes(mutations.drop_last()) + mutation_bytes(mutations.last())
    }
}

/// The bytes a mutation-stream fingerprint is the digest of.
pub open spec fn mutation_stream_bytes(mutations: Seq<StructuralMutation>) -> Seq<u8> {
    vstd::utf8::encode_utf8("northstar-structural-mutations-v1"@) + le_u64(mutations.len() as u64) + mutations_bytes(
        mutations,
    )
}

// ---------------------------------------------------------------------------
// Writers.
// ---------------------------------------------------------------------------

fn push_le_u32(bytes: &mut Vec<u8>, value: u32)
    ensures
        final(bytes)@ == old(bytes)@ + le_u32(value),
{
    let ghost start = bytes@;
    let mut i: u32 = 0;
    while i < 4
        invariant
            0 <= i <= 4,
            bytes@ == start + le_u32(value).subrange(0, i as int),
        decreases 4 - i,
    {
        bytes.push(((value >> (8 * i)) & 0xff) as u8);
        proof {
            assert(bytes@ =~= start + le_u32(value).subrange(0, i + 1));
        }
        i = i + 1;
    }
    proof {
        assert(le_u32(value).subrange(0, 4) =~= le_u32(value));
    }
}

fn push_le_i64(bytes: &mut Vec<u8>, value: i64)
    ensures
        final(bytes)@ == old(bytes)@ + le_i64(value),
{
    push_le_u64(bytes, value as u64);
}

fn push_byte(bytes: &mut Vec<u8>, value: u8)
    ensures
        final(bytes)@ == old(bytes)@ + seq![value],
{
    bytes.push(value);
    proof {
        assert(final(bytes)@ =~= old(bytes)@ + seq![value]);
    }
}

fn kind_code_of(kind: LevelKind) -> (code: u16)
    ensures
        code == kind_code(kind),
{
    match kind {
        LevelKind::CurrentSessionHigh => 1,
        LevelKind::CurrentSessionLow => 2,
        LevelKind::PreviousSessionHigh => 3,
        LevelKind::PreviousSessionLow => 4,
        LevelKind::DailyExtremeUpperBand => 5,
        LevelKind::DailyExtremeLowerBand => 6,
        LevelKind::OpeningRangeHigh => 10,
        LevelKind::OpeningRangeLow => 11,
        LevelKind::OpeningRangeMid => 12,
        LevelKind::RangeProjection => 20,
        LevelKind::ProfilePoc => 30,
        LevelKind::ProfileVah => 31,
        LevelKind::ProfileVal => 32,
        LevelKind::VolKittC1 => 40,
        LevelKind::VolKittC2 => 41,
        LevelKind::VolKittC3 => 42,
        LevelKind::VolKittC4 => 43,
        LevelKind::VolKittC5 => 44,
        LevelKind::VolKittCog => 45,
        LevelKind::SessionVwap => 50,
        LevelKind::UpperLiquidityShelf => 60,
        LevelKind::LowerLiquidityShelf => 61,
    }
}

fn state_byte_of(state: LevelState) -> (byte: u8)
    ensures
        byte == state_byte(state),
{
    match state {
        LevelState::Developing => 1,
        LevelState::Frozen => 2,
        LevelState::Superseded => 3,
        LevelState::Expired => 4,
    }
}

fn volume_byte_of(quality: VolumeQuality) -> (byte: u8)
    ensures
        byte == volume_byte(quality),
{
    match quality {
        VolumeQuality::ExchangeVolume => 1,
        VolumeQuality::VenueVolume => 2,
        VolumeQuality::TickVolumeProxy => 3,
        VolumeQuality::TimeAtPriceProxy => 4,
        VolumeQuality::Unavailable => 5,
    }
}

fn flag_byte_of(flag: bool) -> (byte: u8)
    ensures
        byte == flag_byte(flag),
{
    if flag {
        1
    } else {
        0
    }
}

fn push_provenance(bytes: &mut Vec<u8>, provenance: &LevelProvenance)
    ensures
        final(bytes)@ == old(bytes)@ + provenance_bytes(*provenance),
{
    let ghost start = bytes@;
    push_le_u16(bytes, provenance.producer_id.0);
    push_le_u64(bytes, provenance.first_sequence.0);
    push_le_u64(bytes, provenance.last_sequence.0);
    push_le_u32(bytes, provenance.derivation_version.0);
    push_le_u32(bytes, provenance.calendar_id.0);
    let code: u16 = match provenance.timeframe {
        Some(timeframe) => timeframe.code(),
        None => 0,
    };
    push_le_u16(bytes, code);
    push_le_i64(bytes, provenance.epoch_ns);
    push_le_u64(bytes, provenance.exclusive_group);
    push_le_u16(bytes, provenance.ordinal);
    proof {
        assert(bytes@ =~= start + provenance_bytes(*provenance));
    }
}

fn push_common(bytes: &mut Vec<u8>, object: &StructuralObject, created_at_ns: i64, effective_at_ns: i64, updated_at_ns: i64)
    ensures
        final(bytes)@ == old(bytes)@ + common_bytes(*object, created_at_ns, effective_at_ns, updated_at_ns),
{
    let ghost start = bytes@;
    push_le_u64(bytes, object.id().0);
    push_le_u32(bytes, object.instrument_id().0);
    push_byte(bytes, object.price_space().rank());
    push_le_u16(bytes, kind_code_of(object.kind()));
    push_byte(bytes, object.family().rank());
    push_byte(bytes, object.role().rank());
    push_byte(bytes, state_byte_of(object.state()));
    push_le_i64(bytes, created_at_ns);
    push_le_i64(bytes, effective_at_ns);
    push_le_i64(bytes, updated_at_ns);
    push_provenance(bytes, &object.provenance());
    proof {
        assert(bytes@ =~= start + common_bytes(*object, created_at_ns, effective_at_ns, updated_at_ns));
    }
}

fn push_object(bytes: &mut Vec<u8>, object: &StructuralObject)
    ensures
        final(bytes)@ == old(bytes)@ + object_bytes(*object),
{
    let ghost start = bytes@;
    match object {
        StructuralObject::Level(level) => {
            push_byte(bytes, 1);
            push_common(bytes, object, level.created_at_ns, level.effective_at_ns, level.updated_at_ns);
            push_le_i64(bytes, level.price);
        },
        StructuralObject::Band(band) => {
            push_byte(bytes, 2);
            push_common(bytes, object, band.created_at_ns, band.effective_at_ns, band.updated_at_ns);
            push_le_i64(bytes, band.lower);
            push_le_i64(bytes, band.upper);
            push_le_i64(bytes, band.reference_price);
        },
    }
    proof {
        assert(bytes@ =~= start + object_bytes(*object));
    }
}

fn push_objects(bytes: &mut Vec<u8>, objects: &Vec<StructuralObject>)
    ensures
        final(bytes)@ == old(bytes)@ + objects_bytes(objects@),
{
    let ghost start = bytes@;
    let mut i: usize = 0;
    while i < objects.len()
        invariant
            0 <= i <= objects@.len(),
            bytes@ == start + objects_bytes(objects@.subrange(0, i as int)),
        decreases objects@.len() - i,
    {
        push_object(bytes, &objects[i]);
        proof {
            let prefix = objects@.subrange(0, i + 1);
            assert(prefix.drop_last() =~= objects@.subrange(0, i as int));
            assert(bytes@ =~= start + objects_bytes(prefix));
        }
        i = i + 1;
    }
    proof {
        assert(objects@.subrange(0, objects@.len() as int) =~= objects@);
    }
}

fn push_node(bytes: &mut Vec<u8>, node: &StructuralNode)
    ensures
        final(bytes)@ == old(bytes)@ + node_bytes(*node),
{
    let ghost start = bytes@;
    push_le_u64(bytes, node.id.0);
    push_le_u32(bytes, node.instrument_id.0);
    push_byte(bytes, node.price_space.rank());
    push_le_i64(bytes, node.lower);
    push_le_i64(bytes, node.upper);
    push_le_i64(bytes, node.center);
    push_le_i64(bytes, node.created_at_ns);
    push_le_i64(bytes, node.updated_at_ns);
    push_le_u64(bytes, node.roles.len() as u64);
    let ghost after_header = bytes@;
    let mut i: usize = 0;
    while i < node.roles.len()
        invariant
            0 <= i <= node.roles@.len(),
            bytes@ == after_header + roles_bytes(node.roles@.subrange(0, i as int)),
        decreases node.roles@.len() - i,
    {
        push_byte(bytes, node.roles.as_slice()[i].rank());
        proof {
            let prefix = node.roles@.subrange(0, i + 1);
            assert(prefix.drop_last() =~= node.roles@.subrange(0, i as int));
            assert(bytes@ =~= after_header + roles_bytes(prefix));
        }
        i = i + 1;
    }
    proof {
        assert(node.roles@.subrange(0, node.roles@.len() as int) =~= node.roles@);
    }
    push_le_u64(bytes, node.families.len() as u64);
    let ghost after_roles = bytes@;
    let mut j: usize = 0;
    while j < node.families.len()
        invariant
            0 <= j <= node.families@.len(),
            bytes@ == after_roles + families_bytes(node.families@.subrange(0, j as int)),
        decreases node.families@.len() - j,
    {
        push_byte(bytes, node.families.as_slice()[j].rank());
        proof {
            let prefix = node.families@.subrange(0, j + 1);
            assert(prefix.drop_last() =~= node.families@.subrange(0, j as int));
            assert(bytes@ =~= after_roles + families_bytes(prefix));
        }
        j = j + 1;
    }
    proof {
        assert(node.families@.subrange(0, node.families@.len() as int) =~= node.families@);
    }
    push_le_u64(bytes, node.contributors.len() as u64);
    let ghost after_families = bytes@;
    let mut k: usize = 0;
    while k < node.contributors.len()
        invariant
            0 <= k <= node.contributors@.len(),
            bytes@ == after_families + level_ids_bytes(node.contributors@.subrange(0, k as int)),
        decreases node.contributors@.len() - k,
    {
        push_le_u64(bytes, node.contributors.as_slice()[k].0);
        proof {
            let prefix = node.contributors@.subrange(0, k + 1);
            assert(prefix.drop_last() =~= node.contributors@.subrange(0, k as int));
            assert(bytes@ =~= after_families + level_ids_bytes(prefix));
        }
        k = k + 1;
    }
    proof {
        assert(node.contributors@.subrange(0, node.contributors@.len() as int) =~= node.contributors@);
        assert(bytes@ =~= start + node_bytes(*node));
    }
}

fn push_nodes(bytes: &mut Vec<u8>, nodes: &Vec<StructuralNode>)
    ensures
        final(bytes)@ == old(bytes)@ + nodes_bytes(nodes@),
{
    let ghost start = bytes@;
    let mut i: usize = 0;
    while i < nodes.len()
        invariant
            0 <= i <= nodes@.len(),
            bytes@ == start + nodes_bytes(nodes@.subrange(0, i as int)),
        decreases nodes@.len() - i,
    {
        push_node(bytes, &nodes[i]);
        proof {
            let prefix = nodes@.subrange(0, i + 1);
            assert(prefix.drop_last() =~= nodes@.subrange(0, i as int));
            assert(bytes@ =~= start + nodes_bytes(prefix));
        }
        i = i + 1;
    }
    proof {
        assert(nodes@.subrange(0, nodes@.len() as int) =~= nodes@);
    }
}

fn push_corridors(bytes: &mut Vec<u8>, corridors: &Vec<StructuralCorridor>)
    ensures
        final(bytes)@ == old(bytes)@ + corridors_bytes(corridors@),
{
    let ghost start = bytes@;
    let mut i: usize = 0;
    while i < corridors.len()
        invariant
            0 <= i <= corridors@.len(),
            bytes@ == start + corridors_bytes(corridors@.subrange(0, i as int)),
        decreases corridors@.len() - i,
    {
        let corridor = corridors[i];
        let ghost before = bytes@;
        push_le_u64(bytes, corridor.lower_node.0);
        push_le_u64(bytes, corridor.upper_node.0);
        push_le_i64(bytes, corridor.lower_edge);
        push_le_i64(bytes, corridor.upper_edge);
        push_le_i64(bytes, corridor.width);
        push_le_i64(bytes, corridor.width_atr_ppm);
        proof {
            assert(bytes@ =~= before + corridor_bytes(corridor));
            let prefix = corridors@.subrange(0, i + 1);
            assert(prefix.drop_last() =~= corridors@.subrange(0, i as int));
            assert(bytes@ =~= start + corridors_bytes(prefix));
        }
        i = i + 1;
    }
    proof {
        assert(corridors@.subrange(0, corridors@.len() as int) =~= corridors@);
    }
}

fn push_node_ids(bytes: &mut Vec<u8>, ids: &NodeIdList)
    ensures
        final(bytes)@ == old(bytes)@ + le_u64(ids@.len() as u64) + node_ids_bytes(ids@),
{
    push_le_u64(bytes, ids.len() as u64);
    let ghost start = bytes@;
    let mut i: usize = 0;
    while i < ids.len()
        invariant
            0 <= i <= ids@.len(),
            bytes@ == start + node_ids_bytes(ids@.subrange(0, i as int)),
        decreases ids@.len() - i,
    {
        push_le_u64(bytes, ids.as_slice()[i].0);
        proof {
            let prefix = ids@.subrange(0, i + 1);
            assert(prefix.drop_last() =~= ids@.subrange(0, i as int));
            assert(bytes@ =~= start + node_ids_bytes(prefix));
        }
        i = i + 1;
    }
    proof {
        assert(ids@.subrange(0, ids@.len() as int) =~= ids@);
    }
}

fn push_genealogy(bytes: &mut Vec<u8>, genealogy: &NodeGenealogy)
    ensures
        final(bytes)@ == old(bytes)@ + genealogy_bytes(*genealogy),
{
    let ghost start = bytes@;
    match genealogy {
        NodeGenealogy::Created(id) => {
            push_byte(bytes, 1);
            push_le_u64(bytes, id.0);
        },
        NodeGenealogy::Preserved(id) => {
            push_byte(bytes, 2);
            push_le_u64(bytes, id.0);
        },
        NodeGenealogy::Merged { into, from } => {
            push_byte(bytes, 3);
            push_le_u64(bytes, into.0);
            push_node_ids(bytes, from);
        },
        NodeGenealogy::Split { from, into } => {
            push_byte(bytes, 4);
            push_le_u64(bytes, from.0);
            push_node_ids(bytes, into);
        },
        NodeGenealogy::Expired(id) => {
            push_byte(bytes, 5);
            push_le_u64(bytes, id.0);
        },
    }
    proof {
        assert(bytes@ =~= start + genealogy_bytes(*genealogy));
    }
}

fn push_genealogies(bytes: &mut Vec<u8>, entries: &Vec<NodeGenealogy>)
    ensures
        final(bytes)@ == old(bytes)@ + genealogies_bytes(entries@),
{
    let ghost start = bytes@;
    let mut i: usize = 0;
    while i < entries.len()
        invariant
            0 <= i <= entries@.len(),
            bytes@ == start + genealogies_bytes(entries@.subrange(0, i as int)),
        decreases entries@.len() - i,
    {
        push_genealogy(bytes, &entries[i]);
        proof {
            let prefix = entries@.subrange(0, i + 1);
            assert(prefix.drop_last() =~= entries@.subrange(0, i as int));
            assert(bytes@ =~= start + genealogies_bytes(prefix));
        }
        i = i + 1;
    }
    proof {
        assert(entries@.subrange(0, entries@.len() as int) =~= entries@);
    }
}

fn push_optional(bytes: &mut Vec<u8>, value: Option<i64>)
    ensures
        final(bytes)@ == old(bytes)@ + optional_bytes(value),
{
    let ghost start = bytes@;
    match value {
        Some(value) => {
            push_byte(bytes, 1);
            push_le_i64(bytes, value);
        },
        None => {
            push_byte(bytes, 0);
        },
    }
    proof {
        assert(bytes@ =~= start + optional_bytes(value));
    }
}

fn push_location(bytes: &mut Vec<u8>, location: &MarketLocationSnapshot)
    ensures
        final(bytes)@ == old(bytes)@ + located_bytes(*location),
{
    let ghost start = bytes@;
    match location.location {
        MarketLocation::Unavailable => {
            push_byte(bytes, 0);
        },
        MarketLocation::InsideNode(id) => {
            push_byte(bytes, 1);
            push_le_u64(bytes, id.0);
        },
        MarketLocation::Between { lower, upper } => {
            push_byte(bytes, 2);
            push_le_u64(bytes, lower.0);
            push_le_u64(bytes, upper.0);
        },
        MarketLocation::BelowKnownStructure { nearest } => {
            push_byte(bytes, 3);
            push_le_u64(bytes, nearest.0);
        },
        MarketLocation::AboveKnownStructure { nearest } => {
            push_byte(bytes, 4);
            push_le_u64(bytes, nearest.0);
        },
    }
    let ghost after_location = bytes@;
    push_optional(bytes, location.distance_to_lower);
    push_optional(bytes, location.distance_to_upper);
    push_optional(bytes, location.distance_to_lower_atr_ppm);
    push_optional(bytes, location.distance_to_upper_atr_ppm);
    proof {
        assert(after_location =~= start + location_bytes(location.location));
        assert(bytes@ =~= start + located_bytes(*location));
    }
}

#[verifier::rlimit(40)]
fn push_quality(bytes: &mut Vec<u8>, quality: &StructuralQuality)
    ensures
        final(bytes)@ == old(bytes)@ + quality_bytes(*quality),
{
    let ghost start = bytes@;
    let b0 = flag_byte_of(quality.price_fresh);
    let b1 = volume_byte_of(quality.volume_quality);
    let b2 = flag_byte_of(quality.adaptive_value_available);
    let b3 = flag_byte_of(quality.volume_profile_available);
    let b4 = flag_byte_of(quality.tpo_profile_available);
    let b5 = flag_byte_of(quality.calendar_valid);
    let b6 = flag_byte_of(quality.gaps_present);
    let b7 = flag_byte_of(quality.revisions_pending);
    push_byte(bytes, b0);
    push_byte(bytes, b1);
    push_byte(bytes, b2);
    push_byte(bytes, b3);
    push_byte(bytes, b4);
    push_byte(bytes, b5);
    push_byte(bytes, b6);
    push_byte(bytes, b7);
    proof {
        assert(quality_bytes(*quality) =~= seq![b0, b1, b2, b3, b4, b5, b6, b7]);
        assert(bytes@ =~= start + seq![b0, b1, b2, b3, b4, b5, b6, b7]);
    }
}

/// Fingerprint of a structural snapshot: the BLAKE3 digest of its framed
/// fields, levels, graph, location and quality.
pub fn fingerprint_snapshot(snapshot: &StructuralMarketSnapshot) -> (fingerprint: StructuralFingerprint)
    ensures
        fingerprint.0@ == blake3_digest(snapshot_bytes(*snapshot)),
{
    let mut bytes: Vec<u8> = Vec::new();
    push_str(&mut bytes, "northstar-structural-snapshot-v1");
    push_le_u32(&mut bytes, snapshot.instrument_id.0);
    push_byte(&mut bytes, snapshot.price_space.rank());
    push_le_i64(&mut bytes, snapshot.as_of_ns);
    push_le_u64(&mut bytes, snapshot.journal_sequence.0);
    push_le_u64(&mut bytes, snapshot.derivation_generation);
    push_le_i64(&mut bytes, snapshot.reference_price);
    push_le_u64(&mut bytes, snapshot.levels.len() as u64);
    push_objects(&mut bytes, &snapshot.levels);
    push_le_u64(&mut bytes, snapshot.graph.generation);
    push_le_u64(&mut bytes, snapshot.graph.nodes.len() as u64);
    push_nodes(&mut bytes, &snapshot.graph.nodes);
    push_le_u64(&mut bytes, snapshot.graph.corridors.len() as u64);
    push_corridors(&mut bytes, &snapshot.graph.corridors);
    push_le_u64(&mut bytes, snapshot.graph.genealogy.len() as u64);
    push_genealogies(&mut bytes, &snapshot.graph.genealogy);
    push_location(&mut bytes, &snapshot.location);
    push_quality(&mut bytes, &snapshot.quality);
    proof {
        assert(bytes@ =~= snapshot_bytes(*snapshot));
    }
    StructuralFingerprint(blake3_hash(bytes.as_slice()))
}

fn push_mutation(bytes: &mut Vec<u8>, mutation: &StructuralMutation)
    ensures
        final(bytes)@ == old(bytes)@ + mutation_bytes(*mutation),
{
    let ghost start = bytes@;
    match mutation {
        StructuralMutation::Created(object) => {
            push_byte(bytes, 1);
            push_object(bytes, object);
        },
        StructuralMutation::Updated(object) => {
            push_byte(bytes, 2);
            push_object(bytes, object);
        },
        StructuralMutation::Frozen { id, at_ns } => {
            push_byte(bytes, 3);
            push_le_u64(bytes, id.0);
            push_le_i64(bytes, *at_ns);
        },
        StructuralMutation::Superseded { old, new, at_ns } => {
            push_byte(bytes, 4);
            push_le_u64(bytes, old.0);
            push_object(bytes, new);
            push_le_i64(bytes, *at_ns);
        },
        StructuralMutation::Expired { id, at_ns } => {
            push_byte(bytes, 5);
            push_le_u64(bytes, id.0);
            push_le_i64(bytes, *at_ns);
        },
    }
    proof {
        assert(bytes@ =~= start + mutation_bytes(*mutation));
    }
}

/// Fingerprint of a mutation stream: the BLAKE3 digest of its count and its
/// framed mutations in order.
pub fn fingerprint_mutations(mutations: &[StructuralMutation]) -> (fingerprint: StructuralFingerprint)
    ensures
        fingerprint.0@ == blake3_digest(mutation_stream_bytes(mutations@)),
{
    let mut bytes: Vec<u8> = Vec::new();
    push_str(&mut bytes, "northstar-structural-mutations-v1");
    push_le_u64(&mut bytes, mutations.len() as u64);
    let ghost start = bytes@;
    let mut i: usize = 0;
    while i < mutations.len()
        invariant
            0 <= i <= mutations@.len(),
            bytes@ == start + mutations_bytes(mutations@.subrange(0, i as int)),
        decreases mutations@.len() - i,
    {
        push_mutation(&mut bytes, &mutations[i]);
        proof {
            let prefix = mutations@.subrange(0, i + 1);
            assert(prefix.drop_last() =~= mutations@.subrange(0, i as int));
            assert(bytes@ =~= start + mutations_bytes(prefix));
        }
        i = i + 1;
    }
    proof {
        assert(mutations@.subrange(0, mutations@.len() as int) =~= mutations@);
        assert(bytes@ =~= mutation_stream_bytes(mutations@));
    }
    StructuralFingerprint(blake3_hash(bytes.as_slice()))
}

} // verus!
