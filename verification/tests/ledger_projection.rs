use northstar_index_fund::data_plane::instruments;
use northstar_index_fund::ledger::{ActorKind, CorrelationId, LedgerEntryId, LedgerEventKind, LedgerEventStatus, TradeCaseId};
use northstar_index_fund::operating::ledger::{
    body_preview, LedgerCommit, LedgerEntryHeader, LedgerProjector, LedgerSnapshot, LEDGER_VISIBLE_ROWS,
};
use northstar_index_fund::operating::snapshot::Availability;

fn header(entry_id: u64, case_id: u64, correlation: u128, kind: LedgerEventKind, ts: i64) -> LedgerEntryHeader {
    LedgerEntryHeader {
        entry_id,
        case_id,
        parent_entry_id: 0,
        correlation_id: correlation,
        instrument_id: instruments::us100().get(),
        ts_event_ns: ts,
        ts_recorded_ns: ts,
        kind: Some(kind),
        status: Some(LedgerEventStatus::Accepted),
        actor_kind: Some(ActorKind::Operator),
        canonical_first_sequence: 0,
        canonical_last_sequence: 0,
    }
}

#[test]
fn durable_entries_project_to_a_bounded_newest_first_snapshot() {
    let mut projector = LedgerProjector::empty();
    for id in 1..=300u128 {
        let body = format!("note {id}");
        let entry = header(id as u64, (id % 3 + 1) as u64, id, LedgerEventKind::OperatorNote, id as i64);
        projector.apply_entry(&entry, body.as_bytes());
    }
    let snapshot = projector.snapshot();
    assert_eq!(snapshot.entry_count, 300);
    assert_eq!(snapshot.case_count, 3);
    assert_eq!(snapshot.rows.len(), LEDGER_VISIBLE_ROWS);
    assert_eq!(snapshot.rows[0].entry_id, LedgerEntryId(300));
    assert_eq!(&*snapshot.rows[0].preview, "note 300");
}

#[test]
fn awaiting_store_is_empty_and_says_so() {
    let snapshot = LedgerSnapshot::awaiting_store();
    assert_eq!(snapshot.availability, Availability::AwaitingFirstReceipt);
    assert_eq!(snapshot.health, "Ledger store is not attached");
    assert!(snapshot.cases.is_empty() && snapshot.rows.is_empty());
}

#[test]
fn cases_follow_latest_activity_and_correlations_keep_their_first_case() {
    let mut projector = LedgerProjector::empty();
    projector.apply_entry(&header(1, 7, 55, LedgerEventKind::Order, 10), b"order");
    projector.apply_entry(&header(2, 9, 56, LedgerEventKind::Fill, 20), b"fill");
    projector.apply_entry(&header(3, 7, 55, LedgerEventKind::Position, 30), b"position");
    projector.apply_entry(&header(4, 8, 55, LedgerEventKind::Position, 5), b"other case");
    assert_eq!(projector.case_for_correlation(CorrelationId(55)), Some(TradeCaseId(7)));
    assert_eq!(projector.case_for_correlation(CorrelationId(56)), Some(TradeCaseId(9)));
    assert_eq!(projector.case_for_correlation(CorrelationId(57)), None);
    let snapshot = projector.snapshot();
    let order: Vec<u64> = snapshot.cases.iter().map(|case| case.case_id.0).collect();
    assert_eq!(order, vec![7, 9, 8]);
    assert_eq!(snapshot.cases[0].entry_count, 2);
    assert_eq!(snapshot.cases[0].last_kind, LedgerEventKind::Position);
    assert_eq!(snapshot.operator_count, 0);
    assert_eq!(snapshot.machine_count, 4);
    assert_eq!(snapshot.availability, Availability::Ready);
}

#[test]
fn undecodable_and_repeated_commits_change_nothing() {
    let mut projector = LedgerProjector::empty();
    let mut broken = header(1, 1, 0, LedgerEventKind::Order, 1);
    broken.status = None;
    projector.apply_entry(&broken, b"x");
    assert_eq!(projector.snapshot().entry_count, 0);
    let commit = LedgerCommit { inserted: false, header: header(2, 1, 0, LedgerEventKind::Order, 1) };
    assert!(!projector.apply_commit(commit, b"x"));
    assert_eq!(projector.snapshot().generation, 1);
    let commit = LedgerCommit { inserted: true, header: header(2, 1, 0, LedgerEventKind::DataIncident, 1) };
    assert!(projector.apply_commit(commit, b"x"));
    let snapshot = projector.snapshot();
    assert_eq!(snapshot.generation, 2);
    assert_eq!(snapshot.incident_count, 1);
}

#[test]
fn previews_collapse_white_space_and_mark_binary_bodies() {
    assert_eq!(body_preview(b"  a\t\tb \n c  "), "a b c");
    assert_eq!(body_preview(&[0xff, 0xfe]), "<binary evidence>");
    let long = "x".repeat(500);
    assert_eq!(body_preview(long.as_bytes()).len(), 180);
    assert_eq!(body_preview("caf\u{e9}  ok".as_bytes()), "caf\u{e9} ok");
}

#[test]
fn failed_append_publishes_the_projection_marked_invalid() {
    let mut projector = LedgerProjector::empty();
    projector.apply_entry(&header(1, 1, 1, LedgerEventKind::OperatorNote, 10), b"first note");
    let ready = projector.snapshot();
    let failed = projector.failure_snapshot("Operator Ledger append failed: disk full".to_string());
    assert_eq!(failed.availability, Availability::Invalid);
    assert_eq!(failed.health, "Operator Ledger append failed: disk full");
    assert_eq!(failed.entry_count, ready.entry_count);
    assert_eq!(failed.rows.len(), ready.rows.len());
    assert_eq!(failed.case_count, ready.case_count);
}
