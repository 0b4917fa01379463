//! Office snapshots: macro context, operations and lifecycle vocabulary.

use crate::contracts::{GateStatus, IndexKey, index_key_ordinal_spec};
use vstd::prelude::*;

verus! {

/// A macro region.
#[derive(Clone, Copy, Debug, PartialEq, Eq, Hash, Structural)]
pub enum RegionKey {
    UnitedStates,
    EuroArea,
    UnitedKingdom,
    Japan,
}

/// Dense position of a regionKey in declaration order.
pub open spec fn region_key_ordinal_spec(value: RegionKey) -> int {
    match value {
        RegionKey::UnitedStates => 0,
        RegionKey::EuroArea => 1,
        RegionKey::UnitedKingdom => 2,
        RegionKey::Japan => 3,
    }
}

/// Display label of a regionKey.
pub open spec fn region_key_label_spec(value: RegionKey) -> Seq<char> {
    match value {
        RegionKey::UnitedStates => "United States"@,
        RegionKey::EuroArea => "Euro area / Germany"@,
        RegionKey::UnitedKingdom => "United Kingdom"@,
        RegionKey::Japan => "Japan"@,
    }
}

impl RegionKey {
    /// Every value in declaration order.
    pub fn all() -> (values: [RegionKey; 4])
        ensures
            forall|i: int| 0 <= i < 4 ==> region_key_ordinal_spec(#[trigger] values@[i]) == i,
    {
        [RegionKey::UnitedStates, RegionKey::EuroArea, RegionKey::UnitedKingdom, RegionKey::Japan]
    }

    /// Dense position in declaration order.
    pub fn ordinal(self) -> (ordinal: usize)
        ensures
            ordinal == region_key_ordinal_spec(self),
    {
        match self {
            RegionKey::UnitedStates => 0,
            RegionKey::EuroArea => 1,
            RegionKey::UnitedKingdom => 2,
            RegionKey::Japan => 3,
        }
    }

    /// Display label of the region.
    pub fn label(self) -> (label: &'static str)
        ensures
            label@ == region_key_label_spec(self),
    {
        match self {
            RegionKey::UnitedStates => "United States",
            RegionKey::EuroArea => "Euro area / Germany",
            RegionKey::UnitedKingdom => "United Kingdom",
            RegionKey::Japan => "Japan",
        }
    }
}

/// A family of macro context.
#[derive(Clone, Copy, Debug, PartialEq, Eq, Hash, Structural)]
pub enum MacroFamily {
    Growth,
    Inflation,
    Labor,
    Rates,
    Positioning,
    EventRisk,
}

/// Dense position of a macroFamily in declaration order.
pub open spec fn macro_family_ordinal_spec(value: MacroFamily) -> int {
    match value {
        MacroFamily::Growth => 0,
        MacroFamily::Inflation => 1,
        MacroFamily::Labor => 2,
        MacroFamily::Rates => 3,
        MacroFamily::Positioning => 4,
        MacroFamily::EventRisk => 5,
    }
}

/// Display label of a macroFamily.
pub open spec fn macro_family_label_spec(value: MacroFamily) -> Seq<char> {
    match value {
        MacroFamily::Growth => "Growth"@,
        MacroFamily::Inflation => "Inflation"@,
        MacroFamily::Labor => "Labor"@,
        MacroFamily::Rates => "Rates"@,
        MacroFamily::Positioning => "Positioning"@,
        MacroFamily::EventRisk => "Event risk"@,
    }
}

impl MacroFamily {
    /// Every value in declaration order.
    pub fn all() -> (values: [MacroFamily; 6])
        ensures
            forall|i: int| 0 <= i < 6 ==> macro_family_ordinal_spec(#[trigger] values@[i]) == i,
    {
        [MacroFamily::Growth, MacroFamily::Inflation, MacroFamily::Labor, MacroFamily::Rates, MacroFamily::Positioning, MacroFamily::EventRisk]
    }

    /// Dense position in declaration order.
    pub fn ordinal(self) -> (ordinal: usize)
        ensures
            ordinal == macro_family_ordinal_spec(self),
    {
        match self {
            MacroFamily::Growth => 0,
            MacroFamily::Inflation => 1,
            MacroFamily::Labor => 2,
            MacroFamily::Rates => 3,
            MacroFamily::Positioning => 4,
            MacroFamily::EventRisk => 5,
        }
    }

    /// Display label of the family.
    pub fn label(self) -> (label: &'static str)
        ensures
            label@ == macro_family_label_spec(self),
    {
        match self {
            MacroFamily::Growth => "Growth",
            MacroFamily::Inflation => "Inflation",
            MacroFamily::Labor => "Labor",
            MacroFamily::Rates => "Rates",
            MacroFamily::Positioning => "Positioning",
            MacroFamily::EventRisk => "Event risk",
        }
    }
}

/// Number of macro families.
pub const MACRO_FAMILY_COUNT: usize = 6;

/// One region's macro summary.
#[derive(Clone, Copy, Debug)]
pub struct MacroRegionSnapshot {
    pub region: RegionKey,
    pub growth: &'static str,
    pub inflation: &'static str,
    pub labor: &'static str,
    pub policy_rate: &'static str,
    pub rates_context: &'static str,
    pub currency_context: &'static str,
    pub next_release: &'static str,
    pub freshness: &'static str,
}

/// Macro context of one index and family.
#[derive(Clone, Copy, Debug)]
pub struct MacroContextCell {
    pub index: IndexKey,
    pub family: MacroFamily,
    pub state: &'static str,
    pub value: &'static str,
    pub freshness: &'static str,
    pub status: GateStatus,
}

/// Where a release stands.
#[derive(Clone, Copy, Debug, PartialEq, Eq, Structural)]
pub enum ReleaseStatus {
    Scheduled,
    Received,
    Revised,
    Late,
}

/// One scheduled or received macro release.
#[derive(Clone, Copy, Debug)]
pub struct MacroRelease {
    pub release_id: u64,
    pub time_label: &'static str,
    pub region: RegionKey,
    pub name: &'static str,
    pub actual: &'static str,
    pub previous: &'static str,
    pub revised: &'static str,
    pub change: &'static str,
    pub source: &'static str,
    pub freshness: &'static str,
    pub status: ReleaseStatus,
    pub provenance: &'static str,
}

/// Futures positioning of one index.
#[derive(Clone, Copy, Debug)]
pub struct PositioningSnapshot {
    pub index: IndexKey,
    pub contract: &'static str,
    pub asset_manager_net: i32,
    pub leveraged_money_net: i32,
    pub dealer_net: i32,
    pub weekly_delta: i32,
    pub percentile: u8,
    pub open_interest: u32,
    pub report_age_days: u8,
}

/// An official source document.
#[derive(Clone, Copy, Debug)]
pub struct SourceDocument {
    pub document_id: u64,
    pub institution: &'static str,
    pub kind: &'static str,
    pub title: &'static str,
    pub published: &'static str,
    pub scope: &'static str,
    pub receipt: &'static str,
    pub official: bool,
}

/// Slot of an index and family in the dense context table.
pub open spec fn context_slot(index: IndexKey, family: MacroFamily) -> int {
    index_key_ordinal_spec(index) * MACRO_FAMILY_COUNT + macro_family_ordinal_spec(family)
}

/// The macro office at one moment.
#[derive(Clone, Debug)]
pub struct MacroOfficeSnapshot {
    pub snapshot_id: u64,
    pub catalog_version: u32,
    pub as_of: &'static str,
    pub next_release: &'static str,
    pub late_releases: u16,
    pub stale_families: u16,
    pub regions: Vec<MacroRegionSnapshot>,
    /// Dense index-major storage: index ordinal * family count + family ordinal.
    pub context: Vec<MacroContextCell>,
    pub releases: Vec<MacroRelease>,
    pub positioning: Vec<PositioningSnapshot>,
    pub documents: Vec<SourceDocument>,
}

impl MacroOfficeSnapshot {
    /// The context cell of `index` and `family`.
    pub fn context_cell(&self, index: IndexKey, family: MacroFamily) -> (cell: &MacroContextCell)
        requires
            context_slot(index, family) < self.context@.len(),
        ensures
            *cell == self.context@[context_slot(index, family)],
    {
        let slot = index.ordinal() * MACRO_FAMILY_COUNT + family.ordinal();
        &self.context[slot]
    }

    /// The summary stored for `key`'s slot.
    pub fn region(&self, key: RegionKey) -> (region: &MacroRegionSnapshot)
        requires
            region_key_ordinal_spec(key) < self.regions@.len(),
        ensures
            *region == self.regions@[region_key_ordinal_spec(key)],
    {
        &self.regions[key.ordinal()]
    }

    /// The first positioning entry of `key`, if any.
    pub fn positioning(&self, key: IndexKey) -> (found: Option<&PositioningSnapshot>)
        ensures
            match found {
                Some(item) => exists|i: int|
                    0 <= i < self.positioning@.len() && self.positioning@[i] == *item && item.index == key
                        && forall|j: int| 0 <= j < i ==> (#[trigger] self.positioning@[j]).index != key,
                None => forall|j: int| 0 <= j < self.positioning@.len() ==> (#[trigger] self.positioning@[j]).index != key,
            },
    {
        let n = self.positioning.len();
        let mut i: usize = 0;
        while i < n
            invariant
                n == self.positioning@.len(),
                0 <= i <= n,
                forall|j: int| 0 <= j < i ==> (#[trigger] self.positioning@[j]).index != key,
            decreases n - i,
        {
            if self.positioning[i].index == key {
                return Some(&self.positioning[i]);
            }
            i = i + 1;
        }
        None
    }
}

/// Layer of an operations node.
#[derive(Clone, Copy, Debug, PartialEq, Eq, Structural)]
pub enum OperationGroup {
    Data,
    Engine,
    Venue,
    Machine,
}

/// One component of the operations map.
#[derive(Clone, Copy, Debug)]
pub struct OperationNode {
    pub group: OperationGroup,
    pub name: &'static str,
    pub state: &'static str,
    pub metric: &'static str,
    pub detail: &'static str,
    pub status: GateStatus,
}

/// Data coverage of one family.
#[derive(Clone, Copy, Debug)]
pub struct CoverageRow {
    pub family: &'static str,
    pub cataloged: &'static str,
    pub history: &'static str,
    pub latest: &'static str,
    pub freshness: &'static str,
    pub revisions: &'static str,
    pub replay: GateStatus,
}

/// An operations incident.
#[derive(Clone, Copy, Debug)]
pub struct IncidentReceipt {
    pub incident_id: u64,
    pub time_label: &'static str,
    pub system: &'static str,
    pub summary: &'static str,
    pub recovery: &'static str,
    pub status: GateStatus,
}

/// Operations at one moment.
#[derive(Clone, Debug)]
pub struct OperationsSnapshot {
    pub publication_sequence: u64,
    pub snapshot_age_ms: u32,
    pub catalog_coverage_pct: u8,
    pub storage_megabytes: u32,
    pub replay_exact: bool,
    pub nodes: Vec<OperationNode>,
    pub coverage: Vec<CoverageRow>,
    pub incidents: Vec<IncidentReceipt>,
}

/// Kind of a lifecycle receipt.
#[derive(Clone, Copy, Debug, PartialEq, Eq, Hash, Structural)]
pub enum ReceiptKind {
    Observation,
    Decision,
    RiskEvaluation,
    CommandIntent,
    VenueOrder,
    Fill,
    Position,
    Exit,
    Reconciliation,
    Incident,
    OperatorAction,
}

/// Dense position of a receiptKind in declaration order.
pub open spec fn receipt_kind_ordinal_spec(value: ReceiptKind) -> int {
    match value {
        ReceiptKind::Observation => 0,
        ReceiptKind::Decision => 1,
        ReceiptKind::RiskEvaluation => 2,
        ReceiptKind::CommandIntent => 3,
        ReceiptKind::VenueOrder => 4,
        ReceiptKind::Fill => 5,
        ReceiptKind::Position => 6,
        ReceiptKind::Exit => 7,
        ReceiptKind::Reconciliation => 8,
        ReceiptKind::Incident => 9,
        ReceiptKind::OperatorAction => 10,
    }
}

/// Display label of a receiptKind.
pub open spec fn receipt_kind_label_spec(value: ReceiptKind) -> Seq<char> {
    match value {
        ReceiptKind::Observation => "Observation"@,
        ReceiptKind::Decision => "Decision"@,
        ReceiptKind::RiskEvaluation => "Risk"@,
        ReceiptKind::CommandIntent => "Intent"@,
        ReceiptKind::VenueOrder => "Order"@,
        ReceiptKind::Fill => "Fill"@,
        ReceiptKind::Position => "Position"@,
        ReceiptKind::Exit => "Exit"@,
        ReceiptKind::Reconciliation => "Reconcile"@,
        ReceiptKind::Incident => "Incident"@,
        ReceiptKind::OperatorAction => "Operator"@,
    }
}

impl ReceiptKind {
    /// Every value in declaration order.
    pub fn all() -> (values: [ReceiptKind; 11])
        ensures
            forall|i: int| 0 <= i < 11 ==> receipt_kind_ordinal_spec(#[trigger] values@[i]) == i,
    {
        [ReceiptKind::Observation, ReceiptKind::Decision, ReceiptKind::RiskEvaluation, ReceiptKind::CommandIntent, ReceiptKind::VenueOrder, ReceiptKind::Fill, ReceiptKind::Position, ReceiptKind::Exit, ReceiptKind::Reconciliation, ReceiptKind::Incident, ReceiptKind::OperatorAction]
    }

    /// Dense position in declaration order.
    pub fn ordinal(self) -> (ordinal: usize)
        ensures
            ordinal == receipt_kind_ordinal_spec(self),
    {
        match self {
            ReceiptKind::Observation => 0,
            ReceiptKind::Decision => 1,
            ReceiptKind::RiskEvaluation => 2,
            ReceiptKind::CommandIntent => 3,
            ReceiptKind::VenueOrder => 4,
            ReceiptKind::Fill => 5,
            ReceiptKind::Position => 6,
            ReceiptKind::Exit => 7,
            ReceiptKind::Reconciliation => 8,
            ReceiptKind::Incident => 9,
            ReceiptKind::OperatorAction => 10,
        }
    }

    /// Display label of the receipt kind.
    pub fn label(self) -> (label: &'static str)
        ensures
            label@ == receipt_kind_label_spec(self),
    {
        match self {
            ReceiptKind::Observation => "Observation",
            ReceiptKind::Decision => "Decision",
            ReceiptKind::RiskEvaluation => "Risk",
            ReceiptKind::CommandIntent => "Intent",
            ReceiptKind::VenueOrder => "Order",
            ReceiptKind::Fill => "Fill",
            ReceiptKind::Position => "Position",
            ReceiptKind::Exit => "Exit",
            ReceiptKind::Reconciliation => "Reconcile",
            ReceiptKind::Incident => "Incident",
            ReceiptKind::OperatorAction => "Operator",
        }
    }
}

} // verus!
