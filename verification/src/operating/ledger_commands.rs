//! Provider-neutral material events accepted by the Ledger's single writer.

use super::ledger::LedgerProjector;
use super::macro_material::{MacroMaterialBatch, MacroMaterialKind, ledger_label_spec};
use crate::data_plane::providers::{
    bea_source, bls_source, boe_source, boj_source, census_source, cftc_source, ecb_source,
    eurostat_source, fred_source, ons_source,
};
use crate::data_plane::{InstrumentId, JournalSequence, SchemaVersion, SourceId};
use crate::digest::{
    blake3_digest, blake3_hash, le_u128_from, le_u128_prefix, le_u16, le_u64, push_le_u16,
    push_le_u64, push_str,
};
use crate::ledger::{
    ActorId, ActorKind, CorrelationId, LedgerEntryId, LedgerEventDraft, LedgerEventKind,
    LedgerEventStatus, LedgerFlags, SourceEventKey, TradeCaseId, is_operator_spec,
    requires_trade_case_spec,
};
use crate::text::{append_decimal, decimal_text};
use vstd::prelude::*;
use vstd::string::*;

verus! {

/// How an automatic event joins a trade case.
#[derive(Clone, Copy, Debug, PartialEq, Eq, Structural)]
pub enum AutomaticCasePolicy {
    NoCase,
    Existing(TradeCaseId),
    Correlate,
}

/// Provider-neutral material event accepted by the Ledger's single writer.
/// Venue, canonical-data and reconciliation adapters normalize into this
/// type; provider payloads never cross this boundary.
#[derive(Clone, Debug)]
pub struct AutomaticLedgerEventCommand {
    pub source_key: SourceEventKey,
    pub case_policy: AutomaticCasePolicy,
    pub correlation_id: CorrelationId,
    pub actor_id: ActorId,
    pub actor_kind: ActorKind,
    pub kind: LedgerEventKind,
    pub status: LedgerEventStatus,
    pub flags: LedgerFlags,
    pub instrument_id: InstrumentId,
    pub account_id: u64,
    pub ts_event_ns: i64,
    pub ts_received_ns: i64,
    pub canonical_sequences: Option<(JournalSequence, JournalSequence)>,
    pub schema_version: SchemaVersion,
    pub body: Vec<u8>,
}

/// Why an automatic command is refused, if it is, checked in this order: a
/// missing key or actor, a claim of operator authority, an empty body, a
/// receipt before the event, a missing schema, an invalid canonical range,
/// and a case policy the event cannot follow.
pub open spec fn automatic_command_error(command: AutomaticLedgerEventCommand) -> Option<Seq<char>> {
    if command.source_key.0 == 0 {
        Some("source event key is missing"@)
    } else if command.actor_id.0 == 0 {
        Some("actor identity is missing"@)
    } else if command.actor_kind == ActorKind::Operator || is_operator_spec(command.kind) {
        Some("automatic event cannot claim operator authority"@)
    } else if command.body@.len() == 0 {
        Some("evidence body is empty"@)
    } else if command.ts_received_ns < command.ts_event_ns {
        Some("receive time precedes event time"@)
    } else if command.schema_version.0 == 0 {
        Some("schema version is missing"@)
    } else if command.canonical_sequences matches Some(range) && (range.0.0 == 0 || range.1.0 < range.0.0) {
        Some("canonical sequence range is invalid"@)
    } else {
        match command.case_policy {
            AutomaticCasePolicy::NoCase => if requires_trade_case_spec(command.kind) {
                Some("trade lifecycle event requires a case"@)
            } else {
                None
            },
            AutomaticCasePolicy::Existing(case_id) => if case_id.0 == 0 {
                Some("existing case identity is missing"@)
            } else {
                None
            },
            AutomaticCasePolicy::Correlate => if command.correlation_id.0 == 0 {
                Some("correlated event has no correlation identity"@)
            } else {
                None
            },
        }
    }
}

/// Display name of a macro source.
pub open spec fn source_name_spec(source: SourceId) -> Seq<char> {
    if source.0 == 20 {
        "BLS"@
    } else if source.0 == 21 {
        "CFTC TFF"@
    } else if source.0 == 22 {
        "Eurostat"@
    } else if source.0 == 23 {
        "FRED"@
    } else if source.0 == 24 {
        "BEA"@
    } else if source.0 == 25 {
        "Census MARTS"@
    } else if source.0 == 26 {
        "ECB"@
    } else if source.0 == 27 {
        "ONS"@
    } else if source.0 == 28 {
        "Bank of England"@
    } else if source.0 == 29 {
        "Bank of Japan"@
    } else {
        "Official source"@
    }
}

/// Byte of a material family in receipt keys.
pub open spec fn material_byte(kind: MacroMaterialKind) -> u8 {
    match kind {
        MacroMaterialKind::Observations => 1,
        MacroMaterialKind::Positioning => 2,
        MacroMaterialKind::Provenance => 3,
    }
}

/// The bytes a macro receipt's key is the digest of: a domain tag, the
/// source, the family and the canonical range.
pub open spec fn material_key_bytes(batch: MacroMaterialBatch) -> Seq<u8> {
    vstd::utf8::encode_utf8("northstar-ledger-macro-material-v1"@) + le_u16(batch.source.0) + seq![
        material_byte(batch.kind),
    ] + le_u64(batch.first_sequence.0) + le_u64(batch.last_sequence.0)
}

/// Body text of a macro receipt.
pub open spec fn material_body_text(batch: MacroMaterialBatch) -> Seq<char> {
    let corrections = if batch.correction_count == 0 {
        Seq::empty()
    } else {
        "; "@ + decimal_text(batch.correction_count as nat) + " correction(s)"@
    };
    source_name_spec(batch.source) + " committed "@ + decimal_text(batch.event_count as nat) + " "@
        + ledger_label_spec(batch.kind) + " to canonical replay (sequence "@ + decimal_text(
        batch.first_sequence.0 as nat,
    ) + "..="@ + decimal_text(batch.last_sequence.0 as nat) + corrections + ")."@
}

/// Ledger kind of a material family.
pub open spec fn material_event_kind(kind: MacroMaterialKind) -> LedgerEventKind {
    match kind {
        MacroMaterialKind::Observations => LedgerEventKind::MacroRelease,
        MacroMaterialKind::Positioning => LedgerEventKind::Positioning,
        MacroMaterialKind::Provenance => LedgerEventKind::MacroRelease,
    }
}

/// Display name of a macro source.
fn source_name(source: SourceId) -> (name: &'static str)
    ensures
        name@ == source_name_spec(source),
{
    if source.0 == bls_source().0 {
        "BLS"
    } else if source.0 == cftc_source().0 {
        "CFTC TFF"
    } else if source.0 == eurostat_source().0 {
        "Eurostat"
    } else if source.0 == fred_source().0 {
        "FRED"
    } else if source.0 == bea_source().0 {
        "BEA"
    } else if source.0 == census_source().0 {
        "Census MARTS"
    } else if source.0 == ecb_source().0 {
        "ECB"
    } else if source.0 == ons_source().0 {
        "ONS"
    } else if source.0 == boe_source().0 {
        "Bank of England"
    } else if source.0 == boj_source().0 {
        "Bank of Japan"
    } else {
        "Official source"
    }
}

/// Idempotence key of a macro receipt: the first sixteen bytes, read
/// little-endian, of the BLAKE3 digest of its key bytes.
fn macro_source_key(batch: MacroMaterialBatch) -> (key: SourceEventKey)
    ensures
        key.0 == le_u128_from(blake3_digest(material_key_bytes(batch)), 0),
{
    let mut bytes: Vec<u8> = Vec::new();
    push_str(&mut bytes, "northstar-ledger-macro-material-v1");
    push_le_u16(&mut bytes, batch.source.0);
    let kind_byte: u8 = match batch.kind {
        MacroMaterialKind::Observations => 1,
        MacroMaterialKind::Positioning => 2,
        MacroMaterialKind::Provenance => 3,
    };
    bytes.push(kind_byte);
    push_le_u64(&mut bytes, batch.first_sequence.0);
    push_le_u64(&mut bytes, batch.last_sequence.0);
    proof {
        assert(bytes@ =~= material_key_bytes(batch));
    }
    let digest = blake3_hash(bytes.as_slice());
    SourceEventKey(le_u128_prefix(&digest))
}

/// Body text of a macro receipt.
fn material_body(batch: MacroMaterialBatch) -> (body: String)
    ensures
        body@ == material_body_text(batch),
{
    let mut body = source_name(batch.source).to_owned();
    body.append(" committed ");
    append_decimal(&mut body, batch.event_count as u64);
    body.append(" ");
    body.append(batch.kind.ledger_label());
    body.append(" to canonical replay (sequence ");
    append_decimal(&mut body, batch.first_sequence.0);
    body.append("..=");
    append_decimal(&mut body, batch.last_sequence.0);
    if batch.correction_count != 0 {
        body.append("; ");
        append_decimal(&mut body, batch.correction_count as u64);
        body.append(" correction(s)");
    }
    body.append(").");
    proof {
        assert(body@ =~= material_body_text(batch));
    }
    body
}

impl AutomaticLedgerEventCommand {
    /// Checks the command before it reaches the store.
    pub fn validate(&self) -> (result: Result<(), &'static str>)
        ensures
            match result {
                Ok(()) => automatic_command_error(*self) is None,
                Err(message) => automatic_command_error(*self) == Some(message@),
            },
    {
        if self.source_key.0 == 0 {
            return Err("source event key is missing");
        }
        if self.actor_id.0 == 0 {
            return Err("actor identity is missing");
        }
        if self.actor_kind == ActorKind::Operator || self.kind.is_operator() {
            return Err("automatic event cannot claim operator authority");
        }
        if self.body.len() == 0 {
            return Err("evidence body is empty");
        }
        if self.ts_received_ns < self.ts_event_ns {
            return Err("receive time precedes event time");
        }
        if self.schema_version.get() == 0 {
            return Err("schema version is missing");
        }
        if let Some((first, last)) = self.canonical_sequences {
            if first.0 == 0 || last.0 < first.0 {
                return Err("canonical sequence range is invalid");
            }
        }
        match self.case_policy {
            AutomaticCasePolicy::NoCase => {
                if self.kind.requires_trade_case() {
                    return Err("trade lifecycle event requires a case");
                }
            },
            AutomaticCasePolicy::Existing(case_id) => {
                if case_id.0 == 0 {
                    return Err("existing case identity is missing");
                }
            },
            AutomaticCasePolicy::Correlate => {
                if self.correlation_id.0 == 0 {
                    return Err("correlated event has no correlation identity");
                }
            },
        }
        Ok(())
    }

    /// The Ledger receipt of a committed macro batch: a provider-authored,
    /// material, case-free observation linked to its canonical range and keyed
    /// by a digest of its source, family and range.
    pub fn from_macro_batch(batch: MacroMaterialBatch) -> (command: AutomaticLedgerEventCommand)
        ensures
            command.source_key.0 == le_u128_from(blake3_digest(material_key_bytes(batch)), 0),
            command.case_policy == AutomaticCasePolicy::NoCase,
            command.correlation_id.0 == 0,
            command.actor_id.0 == 10_000 + batch.source.0,
            command.actor_kind == ActorKind::Provider,
            command.kind == material_event_kind(batch.kind),
            command.status == LedgerEventStatus::Observed,
            command.flags.0 == 1,
            command.instrument_id.0 == 0,
            command.account_id == 0,
            command.ts_event_ns == batch.ts_received_ns,
            command.ts_received_ns == batch.ts_received_ns,
            command.canonical_sequences == Some((batch.first_sequence, batch.last_sequence)),
            command.schema_version.0 == 1,
            command.body@ == vstd::utf8::encode_utf8(material_body_text(batch)),
    {
        let text = material_body(batch);
        let mut body: Vec<u8> = Vec::new();
        push_str(&mut body, text.as_str());
        proof {
            assert(body@ =~= vstd::utf8::encode_utf8(material_body_text(batch)));
        }
        AutomaticLedgerEventCommand {
            source_key: macro_source_key(batch),
            case_policy: AutomaticCasePolicy::NoCase,
            correlation_id: CorrelationId(0),
            actor_id: ActorId(10_000 + batch.source.0 as u64),
            actor_kind: ActorKind::Provider,
            kind: match batch.kind {
                MacroMaterialKind::Observations => LedgerEventKind::MacroRelease,
                MacroMaterialKind::Positioning => LedgerEventKind::Positioning,
                MacroMaterialKind::Provenance => LedgerEventKind::MacroRelease,
            },
            status: LedgerEventStatus::Observed,
            flags: LedgerFlags::material(),
            instrument_id: InstrumentId(0),
            account_id: 0,
            ts_event_ns: batch.ts_received_ns,
            ts_received_ns: batch.ts_received_ns,
            canonical_sequences: Some((batch.first_sequence, batch.last_sequence)),
            schema_version: SchemaVersion(1),
            body,
        }
    }
}

/// Macro receipts are idempotent: two batches of one source and family over
/// one canonical range get the same key, whatever they count or when they
/// arrived.
pub proof fn lemma_macro_receipt_key_stable(first: MacroMaterialBatch, second: MacroMaterialBatch)
    requires
        first.source == second.source,
        first.kind == second.kind,
        first.first_sequence == second.first_sequence,
        first.last_sequence == second.last_sequence,
    ensures
        material_key_bytes(first) == material_key_bytes(second),
{
}

/// Why an accepted-looking automatic command could not be written.
#[derive(Clone, Copy, Debug, PartialEq, Eq)]
pub enum AutomaticLedgerApplyError {
    Validation(&'static str),
    CorrelationConflict { correlation: CorrelationId, existing: TradeCaseId, requested: TradeCaseId },
}

/// The case that already holds the command's correlation when the command
/// asks for a different existing case.
pub open spec fn correlation_conflict(command: AutomaticLedgerEventCommand, correlations: Map<u128, u64>) -> Option<
    TradeCaseId,
> {
    match command.case_policy {
        AutomaticCasePolicy::Existing(requested) => if command.correlation_id.0 != 0
            && correlations.dom().contains(command.correlation_id.0)
            && correlations[command.correlation_id.0] != requested.0 {
            Some(TradeCaseId(correlations[command.correlation_id.0]))
        } else {
            None
        },
        _ => None,
    }
}

/// The case an automatic command joins: none, the named one, or the case of
/// its correlation (a new case when the correlation is unseen).
pub open spec fn automatic_case(
    command: AutomaticLedgerEventCommand,
    correlations: Map<u128, u64>,
    next_case: TradeCaseId,
) -> TradeCaseId {
    match command.case_policy {
        AutomaticCasePolicy::NoCase => TradeCaseId(0),
        AutomaticCasePolicy::Existing(case_id) => case_id,
        AutomaticCasePolicy::Correlate => if correlations.dom().contains(command.correlation_id.0) {
            TradeCaseId(correlations[command.correlation_id.0])
        } else {
            next_case
        },
    }
}

/// The draft an accepted automatic command becomes: its evidence unchanged,
/// in the case it joins, with no parent, recorded no earlier than received.
pub open spec fn automatic_draft_follows(
    draft: LedgerEventDraft,
    command: AutomaticLedgerEventCommand,
    correlations: Map<u128, u64>,
    next_case: TradeCaseId,
    recorded_ns: i64,
) -> bool {
    &&& draft.case_id == automatic_case(command, correlations, next_case)
    &&& draft.parent_entry_id == LedgerEntryId(0)
    &&& draft.correlation_id == command.correlation_id
    &&& draft.source_key == command.source_key
    &&& draft.actor_id == command.actor_id
    &&& draft.actor_kind == command.actor_kind
    &&& draft.kind == command.kind
    &&& draft.status == command.status
    &&& draft.flags == command.flags
    &&& draft.instrument_id == command.instrument_id
    &&& draft.account_id == command.account_id
    &&& draft.ts_event_ns == command.ts_event_ns
    &&& draft.ts_received_ns == command.ts_received_ns
    &&& draft.ts_recorded_ns == (if recorded_ns >= command.ts_received_ns {
        recorded_ns
    } else {
        command.ts_received_ns
    })
    &&& draft.canonical_sequences == command.canonical_sequences
    &&& draft.schema_version == command.schema_version
    &&& draft.body@ == command.body@
}

/// The entry an automatic command writes, decided from the command, the
/// projection's correlations, the case the store would open next and the
/// writer's clock. A command that fails `validate` is refused with its
/// message; one that names an existing case other than the case already
/// holding its correlation is refused as a conflict.
pub fn automatic_event_draft(
    command: &AutomaticLedgerEventCommand,
    projector: &LedgerProjector,
    next_case: TradeCaseId,
    recorded_ns: i64,
) -> (result: Result<LedgerEventDraft, AutomaticLedgerApplyError>)
    ensures
        result is Ok <==> (automatic_command_error(*command) is None && correlation_conflict(
            *command,
            projector.correlations_spec(),
        ) is None),
        match result {
            Ok(draft) => automatic_draft_follows(
                draft,
                *command,
                projector.correlations_spec(),
                next_case,
                recorded_ns,
            ),
            Err(AutomaticLedgerApplyError::Validation(message)) => automatic_command_error(*command) == Some(
                message@,
            ),
            Err(AutomaticLedgerApplyError::CorrelationConflict { correlation, existing, requested }) => {
                &&& automatic_command_error(*command) is None
                &&& correlation == command.correlation_id
                &&& command.case_policy == AutomaticCasePolicy::Existing(requested)
                &&& correlation_conflict(*command, projector.correlations_spec()) == Some(existing)
            },
        },
{
    if let Err(message) = command.validate() {
        return Err(AutomaticLedgerApplyError::Validation(message));
    }
    let case_id = match command.case_policy {
        AutomaticCasePolicy::NoCase => TradeCaseId(0),
        AutomaticCasePolicy::Existing(case_id) => {
            if command.correlation_id.0 != 0 {
                if let Some(existing) = projector.case_for_correlation(command.correlation_id) {
                    if existing.0 != case_id.0 {
                        return Err(
                            AutomaticLedgerApplyError::CorrelationConflict {
                                correlation: command.correlation_id,
                                existing,
                                requested: case_id,
                            },
                        );
                    }
                }
            }
            case_id
        },
        AutomaticCasePolicy::Correlate => match projector.case_for_correlation(command.correlation_id) {
            Some(existing) => existing,
            None => next_case,
        },
    };
    let recorded = if recorded_ns >= command.ts_received_ns {
        recorded_ns
    } else {
        command.ts_received_ns
    };
    Ok(
        LedgerEventDraft {
            case_id,
            parent_entry_id: LedgerEntryId(0),
            correlation_id: command.correlation_id,
            source_key: command.source_key,
            actor_id: command.actor_id,
            actor_kind: command.actor_kind,
            kind: command.kind,
            status: command.status,
            flags: command.flags,
            instrument_id: command.instrument_id,
            account_id: command.account_id,
            ts_event_ns: command.ts_event_ns,
            ts_received_ns: command.ts_received_ns,
            ts_recorded_ns: recorded,
            canonical_sequences: command.canonical_sequences,
            schema_version: command.schema_version,
            body: vstd::slice::slice_to_vec(command.body.as_slice()),
        },
    )
}

/// An accepted automatic event that carries a correlation already held by a
/// case, and asks for a case at all, lands in that case.
pub proof fn lemma_correlation_decides_case(
    command: AutomaticLedgerEventCommand,
    correlations: Map<u128, u64>,
    next_case: TradeCaseId,
)
    requires
        automatic_command_error(command) is None,
        correlation_conflict(command, correlations) is None,
        command.case_policy != AutomaticCasePolicy::NoCase,
        command.correlation_id.0 != 0,
        correlations.dom().contains(command.correlation_id.0),
    ensures
        automatic_case(command, correlations, next_case) == TradeCaseId(correlations[command.correlation_id.0]),
{
}

} // verus!
