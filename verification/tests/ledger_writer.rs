use northstar_index_fund::data_plane::{instruments, JournalSequence, SchemaVersion};
use northstar_index_fund::ledger::{
    ActorId, ActorKind, CorrelationId, LedgerEntryId, LedgerEventKind, LedgerEventStatus, LedgerFlags, SourceEventKey,
    TradeCaseId,
};
use northstar_index_fund::operating::ledger::{LedgerCommit, LedgerEntryHeader, LedgerProjector};
use northstar_index_fund::operating::ledger_commands::{
    automatic_event_draft, AutomaticCasePolicy, AutomaticLedgerApplyError, AutomaticLedgerEventCommand,
};
use northstar_index_fund::operating::operator_ledger::{
    operator_event_draft, OperatorEntryKind, OperatorLedgerCommand, OperatorLedgerError, OperatorMutation,
};

fn operator_command(kind: OperatorEntryKind, mutation: OperatorMutation) -> OperatorLedgerCommand {
    OperatorLedgerCommand {
        command_key: SourceEventKey(11),
        case_id: TradeCaseId(0),
        correlation_id: CorrelationId(0),
        instrument_id: instruments::us100(),
        submitted_ns: 10,
        entry_kind: kind,
        mutation,
        body: "typed operator evidence".to_string(),
    }
}

fn machine_header() -> LedgerEntryHeader {
    LedgerEntryHeader {
        entry_id: 1,
        case_id: 1,
        parent_entry_id: 0,
        correlation_id: 9,
        instrument_id: instruments::us100().get(),
        ts_event_ns: 9,
        ts_recorded_ns: 9,
        kind: Some(LedgerEventKind::Order),
        status: Some(LedgerEventStatus::Observed),
        actor_kind: Some(ActorKind::Venue),
        canonical_first_sequence: 0,
        canonical_last_sequence: 0,
    }
}

#[test]
fn operator_cannot_mutate_machine_owned_evidence() {
    let mut projector = LedgerProjector::empty();
    assert!(projector.apply_commit(LedgerCommit { inserted: true, header: machine_header() }, b"venue order"));
    let before = projector.snapshot();

    let mut redaction = operator_command(OperatorEntryKind::Observation, OperatorMutation::Redact(LedgerEntryId(1)));
    redaction.command_key = SourceEventKey(10);
    redaction.case_id = TradeCaseId(1);
    let parent = machine_header().actor_kind.map(|actor| (actor, TradeCaseId(machine_header().case_id)));
    assert!(matches!(
        operator_event_draft(&redaction, parent, TradeCaseId(2), 10),
        Err(OperatorLedgerError::MachineEvidenceIsImmutable(LedgerEntryId(1)))
    ));
    let after = projector.snapshot();
    assert_eq!(after.entry_count, 1);
    assert_eq!(after.entry_count, before.entry_count);
    assert_eq!(after.generation, before.generation);
}

#[test]
fn operator_may_amend_its_own_entry() {
    let mut amendment = operator_command(OperatorEntryKind::Observation, OperatorMutation::Amend(LedgerEntryId(4)));
    amendment.case_id = TradeCaseId(3);
    let draft = operator_event_draft(&amendment, Some((ActorKind::Operator, TradeCaseId(3))), TradeCaseId(9), 5).expect("accepted");
    assert_eq!(draft.case_id, TradeCaseId(3));
    assert_eq!(draft.parent_entry_id, LedgerEntryId(4));
    assert_eq!(draft.kind, LedgerEventKind::Amendment);
    assert_eq!(draft.status, LedgerEventStatus::Accepted);
    assert_eq!(draft.ts_recorded_ns, 10);
}

#[test]
fn operator_append_opens_the_next_case_and_keys_its_correlation() {
    let plan = operator_command(OperatorEntryKind::Plan, OperatorMutation::Append);
    let draft = operator_event_draft(&plan, None, TradeCaseId(7), 25).expect("accepted");
    assert_eq!(draft.case_id, TradeCaseId(7));
    assert_eq!(draft.parent_entry_id, LedgerEntryId(0));
    assert_eq!(draft.correlation_id, CorrelationId(11));
    assert_eq!(draft.actor_id, ActorId(1));
    assert_eq!(draft.actor_kind, ActorKind::Operator);
    assert_eq!(draft.kind, LedgerEventKind::OperatorPlan);
    assert_eq!(draft.flags, LedgerFlags(1));
    assert_eq!(draft.ts_event_ns, 10);
    assert_eq!(draft.ts_recorded_ns, 25);
    assert_eq!(draft.schema_version, SchemaVersion(1));
    assert_eq!(draft.body, b"typed operator evidence".to_vec());
}

#[test]
fn operator_redaction_is_written_redacted() {
    let mut redaction = operator_command(OperatorEntryKind::Observation, OperatorMutation::Redact(LedgerEntryId(2)));
    redaction.case_id = TradeCaseId(1);
    let draft = operator_event_draft(&redaction, Some((ActorKind::Operator, TradeCaseId(1))), TradeCaseId(5), 0).expect("accepted");
    assert_eq!(draft.kind, LedgerEventKind::Redaction);
    assert_eq!(draft.status, LedgerEventStatus::Redacted);
}

#[test]
fn invalid_operator_command_is_refused_before_the_parent_is_consulted() {
    let mut blank = operator_command(OperatorEntryKind::Plan, OperatorMutation::Append);
    blank.body = "   ".to_string();
    assert_eq!(
        operator_event_draft(&blank, None, TradeCaseId(1), 0).unwrap_err(),
        OperatorLedgerError::InvalidCommand("operator entry body is empty")
    );
}

fn venue_order(policy: AutomaticCasePolicy, correlation: u128) -> AutomaticLedgerEventCommand {
    AutomaticLedgerEventCommand {
        source_key: SourceEventKey(40),
        case_policy: policy,
        correlation_id: CorrelationId(correlation),
        actor_id: ActorId(20_001),
        actor_kind: ActorKind::Venue,
        kind: LedgerEventKind::Order,
        status: LedgerEventStatus::Observed,
        flags: LedgerFlags(1),
        instrument_id: instruments::us500(),
        account_id: 42,
        ts_event_ns: 100,
        ts_received_ns: 120,
        canonical_sequences: None,
        schema_version: SchemaVersion(1),
        body: b"BUY 1".to_vec(),
    }
}

fn projector_with_case(case_id: u64, correlation: u128) -> LedgerProjector {
    let mut projector = LedgerProjector::empty();
    let mut header = machine_header();
    header.case_id = case_id;
    header.correlation_id = correlation;
    assert!(projector.apply_commit(LedgerCommit { inserted: true, header }, b"venue order"));
    projector
}

#[test]
fn correlated_lifecycle_event_joins_the_case_of_its_correlation() {
    let projector = projector_with_case(4, 77);
    let draft = automatic_event_draft(&venue_order(AutomaticCasePolicy::Correlate, 77), &projector, TradeCaseId(9), 0)
        .expect("accepted");
    assert_eq!(draft.case_id, TradeCaseId(4));
    assert_eq!(draft.ts_recorded_ns, 120);
    assert_eq!(draft.body, b"BUY 1".to_vec());
    let fresh = automatic_event_draft(&venue_order(AutomaticCasePolicy::Correlate, 78), &projector, TradeCaseId(9), 500)
        .expect("accepted");
    assert_eq!(fresh.case_id, TradeCaseId(9));
    assert_eq!(fresh.ts_recorded_ns, 500);
}

#[test]
fn existing_case_that_contradicts_the_correlation_is_a_conflict() {
    let projector = projector_with_case(4, 77);
    assert_eq!(
        automatic_event_draft(
            &venue_order(AutomaticCasePolicy::Existing(TradeCaseId(5)), 77),
            &projector,
            TradeCaseId(9),
            0
        )
        .unwrap_err(),
        AutomaticLedgerApplyError::CorrelationConflict {
            correlation: CorrelationId(77),
            existing: TradeCaseId(4),
            requested: TradeCaseId(5),
        }
    );
    let agreeing =
        automatic_event_draft(&venue_order(AutomaticCasePolicy::Existing(TradeCaseId(4)), 77), &projector, TradeCaseId(9), 0)
            .expect("accepted");
    assert_eq!(agreeing.case_id, TradeCaseId(4));
}

#[test]
fn invalid_automatic_command_is_refused_with_its_reason() {
    let projector = LedgerProjector::empty();
    let mut lifecycle = venue_order(AutomaticCasePolicy::NoCase, 0);
    assert_eq!(
        automatic_event_draft(&lifecycle, &projector, TradeCaseId(1), 0).unwrap_err(),
        AutomaticLedgerApplyError::Validation("trade lifecycle event requires a case")
    );
    lifecycle.kind = LedgerEventKind::Reconciliation;
    lifecycle.canonical_sequences = Some((JournalSequence(3), JournalSequence(4)));
    let draft = automatic_event_draft(&lifecycle, &projector, TradeCaseId(1), 0).expect("accepted");
    assert_eq!(draft.case_id, TradeCaseId(0));
    assert_eq!(draft.canonical_sequences, Some((JournalSequence(3), JournalSequence(4))));
}

#[test]
fn operator_parent_from_another_case_is_refused() {
    let mut amendment = operator_command(OperatorEntryKind::Observation, OperatorMutation::Amend(LedgerEntryId(4)));
    amendment.case_id = TradeCaseId(3);
    assert_eq!(
        operator_event_draft(&amendment, Some((ActorKind::Operator, TradeCaseId(8))), TradeCaseId(9), 5).unwrap_err(),
        OperatorLedgerError::ParentOutsideCase {
            parent: LedgerEntryId(4),
            parent_case: TradeCaseId(8),
            case: TradeCaseId(3),
        }
    );
    assert_eq!(
        operator_event_draft(&amendment, None, TradeCaseId(9), 5).unwrap_err(),
        OperatorLedgerError::MachineEvidenceIsImmutable(LedgerEntryId(4))
    );
}
