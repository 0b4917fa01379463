//! Operator entries: plans, observations, interventions and reviews, with the
//! rules that keep them tied to cases and to operator-owned parents.

use crate::data_plane::{InstrumentId, SchemaVersion};
use crate::digest::{blake3_digest, blake3_hash, le_u128_from, le_u128_prefix, le_u64, push_le_u64, push_str};
use crate::ledger::{
    ActorId, ActorKind, CorrelationId, LedgerEntryId, LedgerEventDraft, LedgerEventKind,
    LedgerEventStatus, LedgerFlags, SourceEventKey, TradeCaseId,
};
use vstd::prelude::*;
use vstd::string::*;

verus! {

/// What an operator records.
#[derive(Clone, Copy, Debug, PartialEq, Eq, Structural)]
pub enum OperatorEntryKind {
    Plan,
    Observation,
    Intervention,
    Review,
}

/// Title of an operator entry kind.
pub open spec fn entry_label_spec(kind: OperatorEntryKind) -> Seq<char> {
    match kind {
        OperatorEntryKind::Plan => "Plan"@,
        OperatorEntryKind::Observation => "Observe"@,
        OperatorEntryKind::Intervention => "Intervene"@,
        OperatorEntryKind::Review => "Review"@,
    }
}

/// Ledger kind an operator entry is written as.
pub open spec fn entry_event_kind_spec(kind: OperatorEntryKind) -> LedgerEventKind {
    match kind {
        OperatorEntryKind::Plan => LedgerEventKind::OperatorPlan,
        OperatorEntryKind::Observation => LedgerEventKind::OperatorObservation,
        OperatorEntryKind::Intervention => LedgerEventKind::OperatorIntervention,
        OperatorEntryKind::Review => LedgerEventKind::OperatorReview,
    }
}

/// Interventions and reviews act on a case that already exists.
pub open spec fn requires_existing_case_spec(kind: OperatorEntryKind) -> bool {
    kind == OperatorEntryKind::Intervention || kind == OperatorEntryKind::Review
}

impl OperatorEntryKind {
    /// Every kind in composer order.
    pub fn all() -> (kinds: [OperatorEntryKind; 4])
        ensures
            kinds@ == seq![
                OperatorEntryKind::Plan,
                OperatorEntryKind::Observation,
                OperatorEntryKind::Intervention,
                OperatorEntryKind::Review,
            ],
    {
        [
            OperatorEntryKind::Plan,
            OperatorEntryKind::Observation,
            OperatorEntryKind::Intervention,
            OperatorEntryKind::Review,
        ]
    }

    /// Title of the kind.
    pub fn label(self) -> (label: &'static str)
        ensures
            label@ == entry_label_spec(self),
    {
        match self {
            OperatorEntryKind::Plan => "Plan",
            OperatorEntryKind::Observation => "Observe",
            OperatorEntryKind::Intervention => "Intervene",
            OperatorEntryKind::Review => "Review",
        }
    }

    /// Ledger kind the entry is written as.
    pub fn event_kind(self) -> (kind: LedgerEventKind)
        ensures
            kind == entry_event_kind_spec(self),
    {
        match self {
            OperatorEntryKind::Plan => LedgerEventKind::OperatorPlan,
            OperatorEntryKind::Observation => LedgerEventKind::OperatorObservation,
            OperatorEntryKind::Intervention => LedgerEventKind::OperatorIntervention,
            OperatorEntryKind::Review => LedgerEventKind::OperatorReview,
        }
    }

    /// Whether the entry must name an existing case.
    pub fn requires_existing_case(self) -> (required: bool)
        ensures
            required == requires_existing_case_spec(self),
    {
        match self {
            OperatorEntryKind::Intervention | OperatorEntryKind::Review => true,
            _ => false,
        }
    }

    /// Byte of the kind in idempotence keys (1 for plans up to 4 for reviews).
    pub fn key_byte(self) -> (byte: u8)
        ensures
            byte == match self {
                OperatorEntryKind::Plan => 1u8,
                OperatorEntryKind::Observation => 2u8,
                OperatorEntryKind::Intervention => 3u8,
                OperatorEntryKind::Review => 4u8,
            },
    {
        match self {
            OperatorEntryKind::Plan => 1,
            OperatorEntryKind::Observation => 2,
            OperatorEntryKind::Intervention => 3,
            OperatorEntryKind::Review => 4,
        }
    }
}

/// How an operator entry relates to earlier ones.
#[derive(Clone, Copy, Debug, PartialEq, Eq, Structural)]
pub enum OperatorMutation {
    Append,
    Amend(LedgerEntryId),
    Redact(LedgerEntryId),
}

/// The entry a mutation acts on; the unknown entry for an append.
pub open spec fn parent_spec(mutation: OperatorMutation) -> LedgerEntryId {
    match mutation {
        OperatorMutation::Append => LedgerEntryId(0),
        OperatorMutation::Amend(parent) => parent,
        OperatorMutation::Redact(parent) => parent,
    }
}

/// Title of a mutation.
pub open spec fn mutation_label_spec(mutation: OperatorMutation) -> Seq<char> {
    match mutation {
        OperatorMutation::Append => "Append"@,
        OperatorMutation::Amend(_) => "Amend"@,
        OperatorMutation::Redact(_) => "Redact"@,
    }
}

impl OperatorMutation {
    /// Title of the mutation.
    pub fn label(self) -> (label: &'static str)
        ensures
            label@ == mutation_label_spec(self),
    {
        match self {
            OperatorMutation::Append => "Append",
            OperatorMutation::Amend(_) => "Amend",
            OperatorMutation::Redact(_) => "Redact",
        }
    }

    /// The entry the mutation acts on; the unknown entry for an append.
    pub fn parent(self) -> (parent: LedgerEntryId)
        ensures
            parent == parent_spec(self),
    {
        match self {
            OperatorMutation::Append => LedgerEntryId(0),
            OperatorMutation::Amend(parent) => parent,
            OperatorMutation::Redact(parent) => parent,
        }
    }

    /// Byte of the mutation in idempotence keys (1 append, 2 amend, 3 redact).
    pub fn key_byte(self) -> (byte: u8)
        ensures
            byte == match self {
                OperatorMutation::Append => 1u8,
                OperatorMutation::Amend(_) => 2u8,
                OperatorMutation::Redact(_) => 3u8,
            },
    {
        match self {
            OperatorMutation::Append => 1,
            OperatorMutation::Amend(_) => 2,
            OperatorMutation::Redact(_) => 3,
        }
    }
}

/// An entry an operator submits to the Ledger.
#[derive(Clone, Debug)]
pub struct OperatorLedgerCommand {
    pub command_key: SourceEventKey,
    pub case_id: TradeCaseId,
    pub correlation_id: CorrelationId,
    pub instrument_id: InstrumentId,
    pub submitted_ns: i64,
    pub entry_kind: OperatorEntryKind,
    pub mutation: OperatorMutation,
    pub body: String,
}

/// Why an operator entry was refused.
#[derive(Clone, Copy, Debug, PartialEq, Eq)]
pub enum OperatorLedgerError {
    InvalidCommand(&'static str),
    MachineEvidenceIsImmutable(LedgerEntryId),
    ParentOutsideCase { parent: LedgerEntryId, parent_case: TradeCaseId, case: TradeCaseId },
}

/// Unicode white space, as `char::is_whitespace` classifies it.
pub open spec fn is_whitespace_spec(c: char) -> bool {
    let code = c as u32;
    (0x09 <= code <= 0x0D) || code == 0x20 || code == 0x85 || code == 0xA0 || code == 0x1680 || (0x2000
        <= code <= 0x200A) || code == 0x2028 || code == 0x2029 || code == 0x202F || code == 0x205F
        || code == 0x3000
}

/// Text with nothing but white space.
pub open spec fn blank(text: Seq<char>) -> bool {
    forall|i: int| 0 <= i < text.len() ==> is_whitespace_spec(#[trigger] text[i])
}

/// Unicode white space.
pub(crate) fn is_whitespace(c: char) -> (white: bool)
    ensures
        white == is_whitespace_spec(c),
{
    let code = c as u32;
    (0x09 <= code && code <= 0x0D) || code == 0x20 || code == 0x85 || code == 0xA0 || code == 0x1680
        || (0x2000 <= code && code <= 0x200A) || code == 0x2028 || code == 0x2029 || code == 0x202F
        || code == 0x205F || code == 0x3000
}

/// Whether the text holds nothing but white space.
fn is_blank(text: &str) -> (result: bool)
    ensures
        result == blank(text@),
{
    let n = text.unicode_len();
    let mut i: usize = 0;
    while i < n
        invariant
            n == text@.len(),
            0 <= i <= n,
            forall|k: int| 0 <= k < i ==> is_whitespace_spec(#[trigger] text@[k]),
        decreases n - i,
    {
        if !is_whitespace(text.get_char(i)) {
            return false;
        }
        i = i + 1;
    }
    true
}

/// Why a command is refused, if it is: a missing key, an empty body, a
/// negative time, an intervention or review without a case, or an amendment
/// or redaction without a case and parent, checked in that order.
pub open spec fn operator_command_error(command: OperatorLedgerCommand) -> Option<Seq<char>> {
    if command.command_key.0 == 0 {
        Some("operator command key is missing"@)
    } else if blank(command.body@) {
        Some("operator entry body is empty"@)
    } else if command.submitted_ns < 0 {
        Some("operator entry timestamp is invalid"@)
    } else if requires_existing_case_spec(command.entry_kind) && command.case_id.0 == 0 {
        Some("interventions and reviews require an existing case"@)
    } else if command.mutation != OperatorMutation::Append && (command.case_id.0 == 0 || parent_spec(
        command.mutation,
    ).0 == 0) {
        Some("amendments and redactions require a case and parent entry"@)
    } else {
        None
    }
}

impl OperatorLedgerCommand {
    /// Checks the command before it reaches the store.
    pub fn validate(&self) -> (result: Result<(), &'static str>)
        ensures
            match result {
                Ok(()) => operator_command_error(*self) is None,
                Err(message) => operator_command_error(*self) == Some(message@),
            },
    {
        if self.command_key.0 == 0 {
            return Err("operator command key is missing");
        }
        if is_blank(self.body.as_str()) {
            return Err("operator entry body is empty");
        }
        if self.submitted_ns < 0 {
            return Err("operator entry timestamp is invalid");
        }
        if self.entry_kind.requires_existing_case() && self.case_id.0 == 0 {
            return Err("interventions and reviews require an existing case");
        }
        if self.mutation != OperatorMutation::Append && (self.case_id.0 == 0 || self.mutation.parent().0
            == 0) {
            return Err("amendments and redactions require a case and parent entry");
        }
        Ok(())
    }
}

/// Actor identity of the operator.
pub const OPERATOR_ACTOR_ID: u64 = 1;

/// Whether the named parent was written by the operator. `parent` is the
/// parent entry's actor and case as the store reports them.
pub open spec fn parent_is_operator(parent: Option<(ActorKind, TradeCaseId)>) -> bool {
    parent matches Some((actor, _)) && actor == ActorKind::Operator
}

/// Whether an operator may act on its parent: an append names none, and a
/// named parent must have been written by the operator in the command's own
/// case.
pub open spec fn parent_writable(command: OperatorLedgerCommand, parent: Option<(ActorKind, TradeCaseId)>) -> bool {
    parent_spec(command.mutation).0 == 0 || (parent matches Some((actor, case)) && actor == ActorKind::Operator
        && case == command.case_id)
}

/// Kind and status of the entry a mutation writes.
pub open spec fn operator_kind_status(command: OperatorLedgerCommand) -> (LedgerEventKind, LedgerEventStatus) {
    match command.mutation {
        OperatorMutation::Append => (entry_event_kind_spec(command.entry_kind), LedgerEventStatus::Accepted),
        OperatorMutation::Amend(_) => (LedgerEventKind::Amendment, LedgerEventStatus::Accepted),
        OperatorMutation::Redact(_) => (LedgerEventKind::Redaction, LedgerEventStatus::Redacted),
    }
}

/// The draft an accepted operator command becomes: its case, or the next
/// case when it names none; its correlation, or one taken from its key; a
/// material operator entry stamped at submission and recorded no earlier.
pub open spec fn operator_draft_follows(
    draft: LedgerEventDraft,
    command: OperatorLedgerCommand,
    next_case: TradeCaseId,
    recorded_ns: i64,
) -> bool {
    &&& draft.case_id == (if command.case_id.0 == 0 {
        next_case
    } else {
        command.case_id
    })
    &&& draft.parent_entry_id == parent_spec(command.mutation)
    &&& draft.correlation_id == (if command.correlation_id.0 == 0 {
        CorrelationId(command.command_key.0)
    } else {
        command.correlation_id
    })
    &&& draft.source_key == command.command_key
    &&& draft.actor_id == ActorId(OPERATOR_ACTOR_ID)
    &&& draft.actor_kind == ActorKind::Operator
    &&& (draft.kind, draft.status) == operator_kind_status(command)
    &&& draft.flags == LedgerFlags(1)
    &&& draft.instrument_id == command.instrument_id
    &&& draft.account_id == 0
    &&& draft.ts_event_ns == command.submitted_ns
    &&& draft.ts_received_ns == command.submitted_ns
    &&& draft.ts_recorded_ns == (if recorded_ns >= command.submitted_ns {
        recorded_ns
    } else {
        command.submitted_ns
    })
    &&& draft.canonical_sequences is None
    &&& draft.schema_version == SchemaVersion(1)
    &&& draft.body@ == vstd::utf8::encode_utf8(command.body@)
}

/// The entry an operator command writes, decided from the command, the actor
/// and case of the parent it names (as the store reports them; ignored for
/// an append), the case the store would open next and the writer's clock.
/// A command that fails `validate` is refused with its message; one that
/// amends or redacts an entry not written by the operator is refused, since
/// machine evidence cannot be changed from the operator surface; and one
/// whose operator parent belongs to another case is refused, since a
/// mutation needs a parent of its own case.
pub fn operator_event_draft(
    command: &OperatorLedgerCommand,
    parent: Option<(ActorKind, TradeCaseId)>,
    next_case: TradeCaseId,
    recorded_ns: i64,
) -> (result: Result<LedgerEventDraft, OperatorLedgerError>)
    ensures
        result is Ok <==> (operator_command_error(*command) is None && parent_writable(*command, parent)),
        match result {
            Ok(draft) => operator_draft_follows(draft, *command, next_case, recorded_ns),
            Err(OperatorLedgerError::InvalidCommand(message)) => operator_command_error(*command) == Some(
                message@,
            ),
            Err(OperatorLedgerError::MachineEvidenceIsImmutable(entry)) => {
                &&& operator_command_error(*command) is None
                &&& parent_spec(command.mutation).0 != 0
                &&& entry == parent_spec(command.mutation)
                &&& !parent_is_operator(parent)
            },
            Err(OperatorLedgerError::ParentOutsideCase { parent: entry, parent_case, case }) => {
                &&& operator_command_error(*command) is None
                &&& parent_spec(command.mutation).0 != 0
                &&& entry == parent_spec(command.mutation)
                &&& parent == Some((ActorKind::Operator, parent_case))
                &&& case == command.case_id
                &&& parent_case != case
            },
        },
{
    if let Err(message) = command.validate() {
        return Err(OperatorLedgerError::InvalidCommand(message));
    }
    let parent_entry_id = command.mutation.parent();
    if parent_entry_id.0 != 0 {
        match parent {
            Some((ActorKind::Operator, parent_case)) => {
                if parent_case.0 != command.case_id.0 {
                    return Err(
                        OperatorLedgerError::ParentOutsideCase {
                            parent: parent_entry_id,
                            parent_case,
                            case: command.case_id,
                        },
                    );
                }
            },
            _ => {
                return Err(OperatorLedgerError::MachineEvidenceIsImmutable(parent_entry_id));
            },
        }
    }
    let case_id = if command.case_id.0 == 0 {
        next_case
    } else {
        command.case_id
    };
    let (kind, status) = match command.mutation {
        OperatorMutation::Append => (command.entry_kind.event_kind(), LedgerEventStatus::Accepted),
        OperatorMutation::Amend(_) => (LedgerEventKind::Amendment, LedgerEventStatus::Accepted),
        OperatorMutation::Redact(_) => (LedgerEventKind::Redaction, LedgerEventStatus::Redacted),
    };
    let correlation_id = if command.correlation_id.0 == 0 {
        CorrelationId(command.command_key.0)
    } else {
        command.correlation_id
    };
    let recorded = if recorded_ns >= command.submitted_ns {
        recorded_ns
    } else {
        command.submitted_ns
    };
    let body = command.body.as_str().as_bytes_vec();
    Ok(LedgerEventDraft {
        case_id,
        parent_entry_id,
        correlation_id,
        source_key: command.command_key,
        actor_id: ActorId(OPERATOR_ACTOR_ID),
        actor_kind: ActorKind::Operator,
        kind,
        status,
        flags: LedgerFlags::material(),
        instrument_id: command.instrument_id,
        account_id: 0,
        ts_event_ns: command.submitted_ns,
        ts_received_ns: command.submitted_ns,
        ts_recorded_ns: recorded,
        canonical_sequences: None,
        schema_version: SchemaVersion(1),
        body,
    })
}

/// Byte of an entry kind in idempotence keys.
pub open spec fn entry_key_byte(kind: OperatorEntryKind) -> u8 {
    match kind {
        OperatorEntryKind::Plan => 1u8,
        OperatorEntryKind::Observation => 2u8,
        OperatorEntryKind::Intervention => 3u8,
        OperatorEntryKind::Review => 4u8,
    }
}

/// Byte of a mutation in idempotence keys.
pub open spec fn mutation_key_byte(mutation: OperatorMutation) -> u8 {
    match mutation {
        OperatorMutation::Append => 1u8,
        OperatorMutation::Amend(_) => 2u8,
        OperatorMutation::Redact(_) => 3u8,
    }
}

/// What an operator submission's idempotence key digests: a domain tag, the
/// submission time and nonce, the kind and mutation bytes, the parent and the
/// body.
pub open spec fn command_key_bytes(
    timestamp_ns: i64,
    nonce: u64,
    kind: OperatorEntryKind,
    mutation: OperatorMutation,
    body: Seq<u8>,
) -> Seq<u8> {
    vstd::utf8::encode_utf8("northstar-operator-entry-v2"@) + le_u64(timestamp_ns as u64) + le_u64(nonce) + seq![
        entry_key_byte(kind),
        mutation_key_byte(mutation),
    ] + le_u64(parent_spec(mutation).0) + body
}

/// Idempotence key of an operator submission: the first sixteen bytes,
/// read little-endian, of the BLAKE3 digest of its key bytes, with zero (the
/// missing key) replaced by one.
pub fn command_key(
    timestamp_ns: i64,
    nonce: u64,
    kind: OperatorEntryKind,
    mutation: OperatorMutation,
    body: &[u8],
) -> (key: SourceEventKey)
    ensures
        key.0 == (if le_u128_from(blake3_digest(command_key_bytes(timestamp_ns, nonce, kind, mutation, body@)), 0) == 0 {
            1u128
        } else {
            le_u128_from(blake3_digest(command_key_bytes(timestamp_ns, nonce, kind, mutation, body@)), 0)
        }),
        key.0 != 0,
{
    let mut bytes: Vec<u8> = Vec::new();
    push_str(&mut bytes, "northstar-operator-entry-v2");
    push_le_u64(&mut bytes, timestamp_ns as u64);
    push_le_u64(&mut bytes, nonce);
    bytes.push(kind.key_byte());
    bytes.push(mutation.key_byte());
    push_le_u64(&mut bytes, mutation.parent().0);
    let ghost head = bytes@;
    let n = body.len();
    let mut i: usize = 0;
    while i < n
        invariant
            n == body@.len(),
            0 <= i <= n,
            bytes@ == head + body@.subrange(0, i as int),
        decreases n - i,
    {
        bytes.push(body[i]);
        proof {
            assert(bytes@ =~= head + body@.subrange(0, i + 1));
        }
        i = i + 1;
    }
    proof {
        assert(body@.subrange(0, n as int) =~= body@);
        assert(bytes@ =~= command_key_bytes(timestamp_ns, nonce, kind, mutation, body@));
    }
    let digest = blake3_hash(bytes.as_slice());
    let value = le_u128_prefix(&digest);
    SourceEventKey(if value == 0 {
        1
    } else {
        value
    })
}

} // verus!
