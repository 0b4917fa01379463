//! Structural objects, nodes, corridors and market-location records.

use crate::data_plane::{CalendarId, DerivationVersion, InstrumentId, JournalSequence, Timeframe};
use crate::market_state::inline_lists::{FamilyList, IdList, NodeIdList, RoleList};
use std::sync::Arc;
use vstd::prelude::*;

verus! {

/// Fixed-point price.
pub type Price = i64;

/// Difference between two fixed-point prices.
pub type PriceDelta = i64;

/// Identity of a structural level or band.
#[derive(Clone, Copy, Debug, Default, PartialEq, Eq, Hash, PartialOrd, Ord, Structural)]
pub struct LevelId(pub u64);

/// Identity of a structural node.
#[derive(Clone, Copy, Debug, Default, PartialEq, Eq, Hash, PartialOrd, Ord, Structural)]
pub struct StructuralNodeId(pub u64);

/// Identity of a level producer.
#[derive(Clone, Copy, Debug, Default, PartialEq, Eq, Hash, PartialOrd, Ord, Structural)]
pub struct ProducerId(pub u16);

impl StructuralNodeId {
    pub fn get(self) -> (value: u64)
        ensures
            value == self.0,
    {
        self.0
    }
}

impl ProducerId {
    pub fn get(self) -> (value: u16)
        ensures
            value == self.0,
    {
        self.0
    }
}

/// Bits of a level identity: producer (16 bits), low 16 bits of the
/// instrument, and the low 32 bits of the producer-local sequence.
pub open spec fn level_id_bits(producer: u16, instrument: u32, local: u64) -> u64 {
    ((producer as u64) << 48u64) | (((instrument as u64) & 0xFFFFu64) << 32u64) | (local
        & 0xFFFF_FFFFu64)
}

impl LevelId {
    /// The unknown identity.
    pub fn unknown() -> (id: LevelId)
        ensures
            id.0 == 0,
    {
        LevelId(0)
    }

    pub fn get(self) -> (value: u64)
        ensures
            value == self.0,
    {
        self.0
    }

    /// Deterministic identity: producer (16 bits), instrument (16 bits), and
    /// producer-local first-seen sequence (32 bits).
    pub fn from_parts(producer: ProducerId, instrument: InstrumentId, local: u64) -> (id: LevelId)
        ensures
            id.0 == level_id_bits(producer.0, instrument.0, local),
    {
        LevelId(
            ((producer.0 as u64) << 48u64) | (((instrument.0 as u64) & 0xFFFFu64) << 32u64) | (local
                & 0xFFFF_FFFFu64),
        )
    }

    /// Identity for synthetic objects without a catalog instrument.
    pub fn from_producer(producer: ProducerId, local: u64) -> (id: LevelId)
        ensures
            id.0 == level_id_bits(producer.0, 0, local),
    {
        Self::from_parts(producer, InstrumentId(0), local)
    }
}

/// Two level identities are equal exactly when their producers, the low 16
/// bits of their instruments and the low 32 bits of their local sequences are.
/// Producers on different instruments therefore never share an identity.
pub proof fn lemma_level_id_injective(
    p1: u16,
    i1: u32,
    l1: u64,
    p2: u16,
    i2: u32,
    l2: u64,
)
    ensures
        (level_id_bits(p1, i1, l1) == level_id_bits(p2, i2, l2)) <==> (p1 == p2 && (i1 & 0xFFFFu32)
            == (i2 & 0xFFFFu32) && (l1 & 0xFFFF_FFFFu64) == (l2 & 0xFFFF_FFFFu64)),
{
    assert((((p1 as u64) << 48u64) | (((i1 as u64) & 0xFFFFu64) << 32u64) | (l1 & 0xFFFF_FFFFu64))
        == (((p2 as u64) << 48u64) | (((i2 as u64) & 0xFFFFu64) << 32u64) | (l2 & 0xFFFF_FFFFu64))
        <==> (p1 == p2 && (i1 & 0xFFFFu32) == (i2 & 0xFFFFu32) && (l1 & 0xFFFF_FFFFu64) == (l2
        & 0xFFFF_FFFFu64))) by (bit_vector);
}

/// A level identity whose producer is non-zero is never the unknown identity.
pub proof fn lemma_level_id_known(producer: u16, instrument: u32, local: u64)
    requires
        producer != 0,
    ensures
        level_id_bits(producer, instrument, local) != 0,
{
    assert(producer != 0 ==> (((producer as u64) << 48u64) | (((instrument as u64) & 0xFFFFu64)
        << 32u64) | (local & 0xFFFF_FFFFu64)) != 0) by (bit_vector);
}

/// Price space a structural object lives in.
#[derive(Clone, Copy, Debug, PartialEq, Eq, Hash, PartialOrd, Ord, Structural)]
pub enum PriceSpace {
    ReferenceIndex,
    VenueExecutable,
}

/// Declaration rank of a price space.
pub open spec fn price_space_rank(space: PriceSpace) -> u8 {
    match space {
        PriceSpace::ReferenceIndex => 1,
        PriceSpace::VenueExecutable => 2,
    }
}

impl PriceSpace {
    /// Declaration rank; the derived order follows it.
    pub fn rank(self) -> (rank: u8)
        ensures
            rank == price_space_rank(self),
    {
        match self {
            PriceSpace::ReferenceIndex => 1,
            PriceSpace::VenueExecutable => 2,
        }
    }
}

/// Family of methods a level belongs to.
#[derive(Clone, Copy, Debug, PartialEq, Eq, Hash, PartialOrd, Ord, Structural)]
pub enum LevelFamily {
    Session,
    Calendar,
    OpeningRange,
    RangeProjection,
    Profile,
    AdaptiveValue,
    Vwap,
    Liquidity,
}

/// Declaration rank of a family.
pub open spec fn family_rank(family: LevelFamily) -> u8 {
    match family {
        LevelFamily::Session => 1,
        LevelFamily::Calendar => 2,
        LevelFamily::OpeningRange => 3,
        LevelFamily::RangeProjection => 4,
        LevelFamily::Profile => 5,
        LevelFamily::AdaptiveValue => 6,
        LevelFamily::Vwap => 7,
        LevelFamily::Liquidity => 8,
    }
}

impl LevelFamily {
    /// Declaration rank; the derived order follows it.
    pub fn rank(self) -> (rank: u8)
        ensures
            rank == family_rank(self),
    {
        match self {
            LevelFamily::Session => 1,
            LevelFamily::Calendar => 2,
            LevelFamily::OpeningRange => 3,
            LevelFamily::RangeProjection => 4,
            LevelFamily::Profile => 5,
            LevelFamily::AdaptiveValue => 6,
            LevelFamily::Vwap => 7,
            LevelFamily::Liquidity => 8,
        }
    }
}

/// Semantic kind of a level.
#[derive(Clone, Copy, Debug, PartialEq, Eq, Hash, PartialOrd, Ord, Structural)]
pub enum LevelKind {
    CurrentSessionHigh,
    CurrentSessionLow,
    PreviousSessionHigh,
    PreviousSessionLow,
    DailyExtremeUpperBand,
    DailyExtremeLowerBand,
    OpeningRangeHigh,
    OpeningRangeLow,
    OpeningRangeMid,
    RangeProjection,
    ProfilePoc,
    ProfileVah,
    ProfileVal,
    VolKittC1,
    VolKittC2,
    VolKittC3,
    VolKittC4,
    VolKittC5,
    VolKittCog,
    SessionVwap,
    UpperLiquidityShelf,
    LowerLiquidityShelf,
}

/// Role a level plays in the geometry of a node.
#[derive(Clone, Copy, Debug, PartialEq, Eq, Hash, PartialOrd, Ord, Structural)]
pub enum LevelRole {
    OuterLow,
    InnerLow,
    FairValue,
    InnerHigh,
    OuterHigh,
    LowerBoundary,
    UpperBoundary,
    Center,
    LowerLiquidity,
    UpperLiquidity,
    NeutralReference,
}

/// Declaration rank of a role.
pub open spec fn role_rank(role: LevelRole) -> u8 {
    match role {
        LevelRole::OuterLow => 1,
        LevelRole::InnerLow => 2,
        LevelRole::FairValue => 3,
        LevelRole::InnerHigh => 4,
        LevelRole::OuterHigh => 5,
        LevelRole::LowerBoundary => 6,
        LevelRole::UpperBoundary => 7,
        LevelRole::Center => 8,
        LevelRole::LowerLiquidity => 9,
        LevelRole::UpperLiquidity => 10,
        LevelRole::NeutralReference => 11,
    }
}

/// Side of the price axis a role belongs to.
pub open spec fn role_side(role: LevelRole) -> RoleSide {
    match role {
        LevelRole::OuterLow | LevelRole::InnerLow | LevelRole::LowerBoundary
        | LevelRole::LowerLiquidity => RoleSide::Lower,
        LevelRole::InnerHigh | LevelRole::OuterHigh | LevelRole::UpperBoundary
        | LevelRole::UpperLiquidity => RoleSide::Upper,
        LevelRole::FairValue | LevelRole::Center => RoleSide::Center,
        LevelRole::NeutralReference => RoleSide::Neutral,
    }
}

impl LevelRole {
    /// Side of the price axis this role belongs to.
    pub fn side(self) -> (side: RoleSide)
        ensures
            side == role_side(self),
    {
        match self {
            LevelRole::OuterLow | LevelRole::InnerLow | LevelRole::LowerBoundary
            | LevelRole::LowerLiquidity => RoleSide::Lower,
            LevelRole::InnerHigh | LevelRole::OuterHigh | LevelRole::UpperBoundary
            | LevelRole::UpperLiquidity => RoleSide::Upper,
            LevelRole::FairValue | LevelRole::Center => RoleSide::Center,
            LevelRole::NeutralReference => RoleSide::Neutral,
        }
    }

    /// Declaration rank; the derived order follows it.
    pub fn rank(self) -> (rank: u8)
        ensures
            rank == role_rank(self),
    {
        match self {
            LevelRole::OuterLow => 1,
            LevelRole::InnerLow => 2,
            LevelRole::FairValue => 3,
            LevelRole::InnerHigh => 4,
            LevelRole::OuterHigh => 5,
            LevelRole::LowerBoundary => 6,
            LevelRole::UpperBoundary => 7,
            LevelRole::Center => 8,
            LevelRole::LowerLiquidity => 9,
            LevelRole::UpperLiquidity => 10,
            LevelRole::NeutralReference => 11,
        }
    }
}

/// Side of the price axis.
#[derive(Clone, Copy, Debug, PartialEq, Eq, Structural)]
pub enum RoleSide {
    Lower,
    Center,
    Upper,
    Neutral,
}

/// Life-cycle state of a structural object.
#[derive(Clone, Copy, Debug, PartialEq, Eq, Structural)]
pub enum LevelState {
    Developing,
    Frozen,
    Superseded,
    Expired,
}

/// Quality of the volume feeding volume-based methods.
#[derive(Clone, Copy, Debug, PartialEq, Eq, Structural)]
pub enum VolumeQuality {
    ExchangeVolume,
    VenueVolume,
    TickVolumeProxy,
    TimeAtPriceProxy,
    Unavailable,
}

/// Causal provenance of a structural object.
#[derive(Clone, Copy, Debug, PartialEq, Eq, Structural)]
pub struct LevelProvenance {
    pub producer_id: ProducerId,
    pub first_sequence: JournalSequence,
    pub last_sequence: JournalSequence,
    pub derivation_version: DerivationVersion,
    pub calendar_id: CalendarId,
    pub timeframe: Option<Timeframe>,
    /// Semantic epoch such as session open or rolling-window origin.
    pub epoch_ns: i64,
    /// Siblings with the same non-zero key cannot merge into one node.
    pub exclusive_group: u64,
    pub ordinal: u16,
}

/// Age and motion of a structural object.
#[derive(Clone, Copy, Debug, Default, PartialEq, Eq, Structural)]
pub struct LevelMetrics {
    pub age_bars: u32,
    pub velocity_atr_ppm: i32,
}

/// A single-price structural level.
#[derive(Clone, Copy, Debug, PartialEq, Eq, Structural)]
pub struct StructuralLevel {
    pub id: LevelId,
    pub instrument_id: InstrumentId,
    pub price_space: PriceSpace,
    pub kind: LevelKind,
    pub family: LevelFamily,
    pub role: LevelRole,
    pub price: Price,
    pub created_at_ns: i64,
    pub effective_at_ns: i64,
    pub updated_at_ns: i64,
    pub state: LevelState,
    pub provenance: LevelProvenance,
    pub metrics: LevelMetrics,
}

/// A structural price band with a reference price inside it.
#[derive(Clone, Copy, Debug, PartialEq, Eq, Structural)]
pub struct StructuralBand {
    pub id: LevelId,
    pub instrument_id: InstrumentId,
    pub price_space: PriceSpace,
    pub kind: LevelKind,
    pub family: LevelFamily,
    pub role: LevelRole,
    pub lower: Price,
    pub upper: Price,
    pub reference_price: Price,
    pub created_at_ns: i64,
    pub effective_at_ns: i64,
    pub updated_at_ns: i64,
    pub state: LevelState,
    pub provenance: LevelProvenance,
    pub metrics: LevelMetrics,
}

/// A level or a band.
#[derive(Clone, Copy, Debug, PartialEq, Eq, Structural)]
pub enum StructuralObject {
    Level(StructuralLevel),
    Band(StructuralBand),
}

impl StructuralObject {
    pub open spec fn id_spec(self) -> LevelId {
        match self {
            StructuralObject::Level(level) => level.id,
            StructuralObject::Band(band) => band.id,
        }
    }

    pub open spec fn instrument_spec(self) -> InstrumentId {
        match self {
            StructuralObject::Level(level) => level.instrument_id,
            StructuralObject::Band(band) => band.instrument_id,
        }
    }

    pub open spec fn price_space_spec(self) -> PriceSpace {
        match self {
            StructuralObject::Level(level) => level.price_space,
            StructuralObject::Band(band) => band.price_space,
        }
    }

    pub open spec fn kind_spec(self) -> LevelKind {
        match self {
            StructuralObject::Level(level) => level.kind,
            StructuralObject::Band(band) => band.kind,
        }
    }

    pub open spec fn family_spec(self) -> LevelFamily {
        match self {
            StructuralObject::Level(level) => level.family,
            StructuralObject::Band(band) => band.family,
        }
    }

    pub open spec fn role_spec(self) -> LevelRole {
        match self {
            StructuralObject::Level(level) => level.role,
            StructuralObject::Band(band) => band.role,
        }
    }

    pub open spec fn state_spec(self) -> LevelState {
        match self {
            StructuralObject::Level(level) => level.state,
            StructuralObject::Band(band) => band.state,
        }
    }

    pub open spec fn lower_spec(self) -> Price {
        match self {
            StructuralObject::Level(level) => level.price,
            StructuralObject::Band(band) => band.lower,
        }
    }

    pub open spec fn upper_spec(self) -> Price {
        match self {
            StructuralObject::Level(level) => level.price,
            StructuralObject::Band(band) => band.upper,
        }
    }

    pub open spec fn reference_spec(self) -> Price {
        match self {
            StructuralObject::Level(level) => level.price,
            StructuralObject::Band(band) => band.reference_price,
        }
    }

    pub open spec fn provenance_spec(self) -> LevelProvenance {
        match self {
            StructuralObject::Level(level) => level.provenance,
            StructuralObject::Band(band) => band.provenance,
        }
    }

    /// Developing and frozen objects are active.
    pub open spec fn is_active_spec(self) -> bool {
        self.state_spec() == LevelState::Developing || self.state_spec() == LevelState::Frozen
    }

    /// The object with its state and update time replaced.
    pub open spec fn with_state(self, state: LevelState, updated_at_ns: i64) -> StructuralObject {
        match self {
            StructuralObject::Level(level) => StructuralObject::Level(
                StructuralLevel { state, updated_at_ns, ..level },
            ),
            StructuralObject::Band(band) => StructuralObject::Band(
                StructuralBand { state, updated_at_ns, ..band },
            ),
        }
    }

    pub fn id(&self) -> (id: LevelId)
        ensures
            id == self.id_spec(),
    {
        match self {
            StructuralObject::Level(level) => level.id,
            StructuralObject::Band(band) => band.id,
        }
    }

    pub fn instrument_id(&self) -> (id: InstrumentId)
        ensures
            id == self.instrument_spec(),
    {
        match self {
            StructuralObject::Level(level) => level.instrument_id,
            StructuralObject::Band(band) => band.instrument_id,
        }
    }

    pub fn price_space(&self) -> (space: PriceSpace)
        ensures
            space == self.price_space_spec(),
    {
        match self {
            StructuralObject::Level(level) => level.price_space,
            StructuralObject::Band(band) => band.price_space,
        }
    }

    pub fn kind(&self) -> (kind: LevelKind)
        ensures
            kind == self.kind_spec(),
    {
        match self {
            StructuralObject::Level(level) => level.kind,
            StructuralObject::Band(band) => band.kind,
        }
    }

    pub fn family(&self) -> (family: LevelFamily)
        ensures
            family == self.family_spec(),
    {
        match self {
            StructuralObject::Level(level) => level.family,
            StructuralObject::Band(band) => band.family,
        }
    }

    pub fn role(&self) -> (role: LevelRole)
        ensures
            role == self.role_spec(),
    {
        match self {
            StructuralObject::Level(level) => level.role,
            StructuralObject::Band(band) => band.role,
        }
    }

    pub fn state(&self) -> (state: LevelState)
        ensures
            state == self.state_spec(),
    {
        match self {
            StructuralObject::Level(level) => level.state,
            StructuralObject::Band(band) => band.state,
        }
    }

    pub fn lower(&self) -> (price: Price)
        ensures
            price == self.lower_spec(),
    {
        match self {
            StructuralObject::Level(level) => level.price,
            StructuralObject::Band(band) => band.lower,
        }
    }

    pub fn upper(&self) -> (price: Price)
        ensures
            price == self.upper_spec(),
    {
        match self {
            StructuralObject::Level(level) => level.price,
            StructuralObject::Band(band) => band.upper,
        }
    }

    pub fn reference_price(&self) -> (price: Price)
        ensures
            price == self.reference_spec(),
    {
        match self {
            StructuralObject::Level(level) => level.price,
            StructuralObject::Band(band) => band.reference_price,
        }
    }

    pub fn provenance(&self) -> (provenance: LevelProvenance)
        ensures
            provenance == self.provenance_spec(),
    {
        match self {
            StructuralObject::Level(level) => level.provenance,
            StructuralObject::Band(band) => band.provenance,
        }
    }

    /// Moves the object to `state` as of `updated_at_ns`; nothing else changes.
    pub fn set_state(&mut self, state: LevelState, updated_at_ns: i64)
        ensures
            *final(self) == old(self).with_state(state, updated_at_ns),
    {
        match self {
            StructuralObject::Level(level) => {
                level.state = state;
                level.updated_at_ns = updated_at_ns;
            },
            StructuralObject::Band(band) => {
                band.state = state;
                band.updated_at_ns = updated_at_ns;
            },
        }
    }

    /// Developing and frozen objects are active.
    pub fn is_active(&self) -> (active: bool)
        ensures
            active == self.is_active_spec(),
    {
        match self.state() {
            LevelState::Developing | LevelState::Frozen => true,
            _ => false,
        }
    }
}

/// One change to the level book.
#[derive(Clone, Copy, Debug, PartialEq, Eq, Structural)]
pub enum StructuralMutation {
    Created(StructuralObject),
    Updated(StructuralObject),
    Frozen { id: LevelId, at_ns: i64 },
    Superseded { old: LevelId, new: StructuralObject, at_ns: i64 },
    Expired { id: LevelId, at_ns: i64 },
}

/// A cluster of compatible structural objects.
#[derive(Clone, Debug, PartialEq, Eq)]
pub struct StructuralNode {
    pub id: StructuralNodeId,
    pub instrument_id: InstrumentId,
    pub price_space: PriceSpace,
    pub lower: Price,
    pub upper: Price,
    pub center: Price,
    pub roles: RoleList,
    pub contributors: IdList,
    pub families: FamilyList,
    pub created_at_ns: i64,
    pub updated_at_ns: i64,
}

/// The open price space between two adjacent nodes.
#[derive(Clone, Copy, Debug, PartialEq, Eq, Structural)]
pub struct StructuralCorridor {
    pub lower_node: StructuralNodeId,
    pub upper_node: StructuralNodeId,
    pub lower_edge: Price,
    pub upper_edge: Price,
    pub width: PriceDelta,
    pub width_atr_ppm: i64,
}

/// How a node relates to the previous generation.
#[derive(Clone, Debug, PartialEq, Eq)]
pub enum NodeGenealogy {
    Created(StructuralNodeId),
    Preserved(StructuralNodeId),
    Merged { into: StructuralNodeId, from: NodeIdList },
    Split { from: StructuralNodeId, into: NodeIdList },
    Expired(StructuralNodeId),
}

/// One generation of the node graph.
#[derive(Clone, Debug, PartialEq, Eq)]
pub struct StructuralGraphSnapshot {
    pub generation: u64,
    pub nodes: Vec<StructuralNode>,
    pub corridors: Vec<StructuralCorridor>,
    pub genealogy: Vec<NodeGenealogy>,
}

/// Where a price stands relative to the node graph.
#[derive(Clone, Copy, Debug, PartialEq, Eq, Structural)]
pub enum MarketLocation {
    Unavailable,
    InsideNode(StructuralNodeId),
    Between { lower: StructuralNodeId, upper: StructuralNodeId },
    BelowKnownStructure { nearest: StructuralNodeId },
    AboveKnownStructure { nearest: StructuralNodeId },
}

/// A located price with distances to the surrounding structure.
#[derive(Clone, Copy, Debug, PartialEq, Eq, Structural)]
pub struct MarketLocationSnapshot {
    pub location: MarketLocation,
    pub distance_to_lower: Option<PriceDelta>,
    pub distance_to_upper: Option<PriceDelta>,
    pub distance_to_lower_atr_ppm: Option<i64>,
    pub distance_to_upper_atr_ppm: Option<i64>,
}

/// The location of a price when no structure exists.
pub open spec fn unavailable_location() -> MarketLocationSnapshot {
    MarketLocationSnapshot {
        location: MarketLocation::Unavailable,
        distance_to_lower: None,
        distance_to_upper: None,
        distance_to_lower_atr_ppm: None,
        distance_to_upper_atr_ppm: None,
    }
}

impl MarketLocationSnapshot {
    /// The location of a price when no structure exists.
    pub fn unavailable() -> (snapshot: MarketLocationSnapshot)
        ensures
            snapshot == unavailable_location(),
    {
        MarketLocationSnapshot {
            location: MarketLocation::Unavailable,
            distance_to_lower: None,
            distance_to_upper: None,
            distance_to_lower_atr_ppm: None,
            distance_to_upper_atr_ppm: None,
        }
    }
}

/// What the structural state can and cannot claim.
#[derive(Clone, Copy, Debug, PartialEq, Eq, Structural)]
pub struct StructuralQuality {
    pub price_fresh: bool,
    pub volume_quality: VolumeQuality,
    pub adaptive_value_available: bool,
    pub volume_profile_available: bool,
    pub tpo_profile_available: bool,
    pub calendar_valid: bool,
    pub gaps_present: bool,
    pub revisions_pending: bool,
}

/// Quality of a price-only derivation: no volume method is available.
pub open spec fn price_only_quality() -> StructuralQuality {
    StructuralQuality {
        price_fresh: true,
        volume_quality: VolumeQuality::Unavailable,
        adaptive_value_available: false,
        volume_profile_available: false,
        tpo_profile_available: false,
        calendar_valid: true,
        gaps_present: false,
        revisions_pending: false,
    }
}

impl StructuralQuality {
    /// Quality of a price-only derivation: no volume method is available.
    pub fn price_only() -> (quality: StructuralQuality)
        ensures
            quality == price_only_quality(),
    {
        StructuralQuality {
            price_fresh: true,
            volume_quality: VolumeQuality::Unavailable,
            adaptive_value_available: false,
            volume_profile_available: false,
            tpo_profile_available: false,
            calendar_valid: true,
            gaps_present: false,
            revisions_pending: false,
        }
    }
}

/// Structural state of one instrument and price space at one moment: the
/// active objects, the node graph, where the reference price stands and what
/// the derivation can claim.
#[derive(Clone, Debug)]
pub struct StructuralMarketSnapshot {
    pub instrument_id: InstrumentId,
    pub price_space: PriceSpace,
    pub as_of_ns: i64,
    pub journal_sequence: JournalSequence,
    pub derivation_generation: u64,
    pub reference_price: Price,
    pub levels: Arc<Vec<StructuralObject>>,
    pub graph: Arc<StructuralGraphSnapshot>,
    pub location: MarketLocationSnapshot,
    pub quality: StructuralQuality,
}

} // verus!
