//! Ledger vocabulary shared by the automatic and operator command paths:
//! identities, actors, event kinds and statuses, and the draft of an entry.

use crate::data_plane::{InstrumentId, JournalSequence, SchemaVersion};
use vstd::prelude::*;

verus! {

/// Identity of an actor that writes to the Ledger.
#[derive(Clone, Copy, Debug, PartialEq, Eq, Hash, Structural)]
pub struct ActorId(pub u64);

/// Identity that ties events of one trade together.
#[derive(Clone, Copy, Debug, PartialEq, Eq, Hash, Structural)]
pub struct CorrelationId(pub u128);

/// Identity of a Ledger entry.
#[derive(Clone, Copy, Debug, PartialEq, Eq, Hash, Structural)]
pub struct LedgerEntryId(pub u64);

/// Identity of a trade case.
#[derive(Clone, Copy, Debug, PartialEq, Eq, Hash, Structural)]
pub struct TradeCaseId(pub u64);

/// Idempotence key of the source event behind an entry.
#[derive(Clone, Copy, Debug, PartialEq, Eq, Hash, Structural)]
pub struct SourceEventKey(pub u128);

/// Who wrote an entry.
#[derive(Clone, Copy, Debug, PartialEq, Eq, Hash, Structural)]
pub enum ActorKind {
    Operator,
    Provider,
    Venue,
    System,
}

/// What an entry records.
#[derive(Clone, Copy, Debug, PartialEq, Eq, Hash, Structural)]
pub enum LedgerEventKind {
    Decision,
    Order,
    Fill,
    Position,
    Reconciliation,
    MacroRelease,
    Positioning,
    DataIncident,
    OperatorPlan,
    OperatorObservation,
    OperatorIntervention,
    OperatorReview,
    OperatorNote,
    Amendment,
    Redaction,
}

/// Entries written with operator authority.
pub open spec fn is_operator_spec(kind: LedgerEventKind) -> bool {
    kind == LedgerEventKind::OperatorPlan || kind == LedgerEventKind::OperatorObservation || kind == LedgerEventKind::OperatorIntervention || kind == LedgerEventKind::OperatorReview || kind == LedgerEventKind::OperatorNote
}

/// Entries of a trade's lifecycle, which always belong to a case.
pub open spec fn requires_trade_case_spec(kind: LedgerEventKind) -> bool {
    kind == LedgerEventKind::Decision || kind == LedgerEventKind::Order || kind == LedgerEventKind::Fill || kind == LedgerEventKind::Position
}

impl LedgerEventKind {
    /// Whether the kind carries operator authority.
    pub fn is_operator(self) -> (operator: bool)
        ensures
            operator == is_operator_spec(self),
    {
        match self {
            LedgerEventKind::OperatorPlan | LedgerEventKind::OperatorObservation | LedgerEventKind::OperatorIntervention | LedgerEventKind::OperatorReview | LedgerEventKind::OperatorNote => true,
            _ => false,
        }
    }

    /// Whether the kind belongs to a trade's lifecycle.
    pub fn requires_trade_case(self) -> (required: bool)
        ensures
            required == requires_trade_case_spec(self),
    {
        match self {
            LedgerEventKind::Decision | LedgerEventKind::Order | LedgerEventKind::Fill | LedgerEventKind::Position => true,
            _ => false,
        }
    }
}

/// Status of an entry.
#[derive(Clone, Copy, Debug, PartialEq, Eq, Hash, Structural)]
pub enum LedgerEventStatus {
    Observed,
    Accepted,
    Pending,
    Rejected,
    Redacted,
    Superseded,
    Incident,
}

/// Flags of an entry.
#[derive(Clone, Copy, Debug, PartialEq, Eq, Hash, Structural)]
pub struct LedgerFlags(pub u32);

impl LedgerFlags {
    /// No flag.
    pub fn none() -> (flags: LedgerFlags)
        ensures
            flags.0 == 0,
    {
        LedgerFlags(0)
    }

    /// The entry is material to the fund's record.
    pub fn material() -> (flags: LedgerFlags)
        ensures
            flags.0 == 1,
    {
        LedgerFlags(1)
    }
}

/// An entry as the writer hands it to the store: everything the store keeps
/// but the entry's own identity and position.
#[derive(Clone, Debug)]
pub struct LedgerEventDraft {
    pub case_id: TradeCaseId,
    pub parent_entry_id: LedgerEntryId,
    pub correlation_id: CorrelationId,
    pub source_key: SourceEventKey,
    pub actor_id: ActorId,
    pub actor_kind: ActorKind,
    pub kind: LedgerEventKind,
    pub status: LedgerEventStatus,
    pub flags: LedgerFlags,
    pub instrument_id: InstrumentId,
    pub account_id: u64,
    pub ts_event_ns: i64,
    pub ts_received_ns: i64,
    pub ts_recorded_ns: i64,
    pub canonical_sequences: Option<(JournalSequence, JournalSequence)>,
    pub schema_version: SchemaVersion,
    pub body: Vec<u8>,
}

} // verus!
