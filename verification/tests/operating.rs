use northstar_index_fund::data_plane::instruments;
use northstar_index_fund::data_plane::providers::{bls_source, eurostat_source};
use northstar_index_fund::data_plane::{CanonicalBar, EventKind, JournalSequence, SourceId, Timeframe};
use northstar_index_fund::ledger::{CorrelationId, LedgerEntryId, LedgerEventKind, SourceEventKey, TradeCaseId};
use northstar_index_fund::office::MacroFamily;
use northstar_index_fund::operating::ledger_commands::{AutomaticCasePolicy, AutomaticLedgerEventCommand};
use northstar_index_fund::operating::macro_material::{MacroMaterialBatch, MacroMaterialKind, MaterialEvent};
use northstar_index_fund::operating::market::{BarTimeline, MarketInstrument, MarketProjectorError};
use northstar_index_fund::operating::operator_ledger::{OperatorEntryKind, OperatorLedgerCommand, OperatorMutation};
use northstar_index_fund::operating::snapshot::{Availability, DomainMask, BAR_SERIES_BLOCK_LEN};
use northstar_index_fund::operating_page::OperatingPage;

#[test]
fn macro_family_layout_is_dense_and_stable() {
    assert_eq!(MacroFamily::all().len(), 6);
    assert_eq!(MacroFamily::Growth as usize, 0);
    assert_eq!(MacroFamily::EventRisk as usize, 5);
}

#[test]
fn macro_command_is_stable_material_and_canonical_linked() {
    let batch = MacroMaterialBatch {
        source: eurostat_source(),
        kind: MacroMaterialKind::Observations,
        first_sequence: JournalSequence(7),
        last_sequence: JournalSequence(9),
        ts_received_ns: 100,
        event_count: 3,
        correction_count: 1,
    };
    let first = AutomaticLedgerEventCommand::from_macro_batch(batch);
    let second = AutomaticLedgerEventCommand::from_macro_batch(batch);
    assert_eq!(first.source_key, second.source_key);
    assert_eq!(first.kind, LedgerEventKind::MacroRelease);
    assert_eq!(first.case_policy, AutomaticCasePolicy::NoCase);
    assert_eq!(first.canonical_sequences, Some((JournalSequence(7), JournalSequence(9))));
    first.validate().unwrap();
    let positioning = AutomaticLedgerEventCommand::from_macro_batch(MacroMaterialBatch {
        kind: MacroMaterialKind::Positioning,
        ..batch
    });
    assert_eq!(positioning.kind, LedgerEventKind::Positioning);
}

#[test]
fn trade_lifecycle_cannot_escape_case_correlation() {
    let mut command = AutomaticLedgerEventCommand::from_macro_batch(MacroMaterialBatch {
        source: bls_source(),
        kind: MacroMaterialKind::Observations,
        first_sequence: JournalSequence(1),
        last_sequence: JournalSequence(1),
        ts_received_ns: 1,
        event_count: 1,
        correction_count: 0,
    });
    command.kind = LedgerEventKind::Fill;
    assert_eq!(command.validate(), Err("trade lifecycle event requires a case"));
}

fn event(sequence: u64, source: u16, correction: bool) -> MaterialEvent {
    MaterialEvent {
        source: SourceId(source),
        kind: EventKind::MacroObservation,
        journal_sequence: JournalSequence(sequence),
        correction,
        ts_received_ns: 20,
    }
}

#[test]
fn batch_summary_keeps_range_source_and_corrections() {
    let batch = MacroMaterialBatch::from_events(&[event(7, 20, false), event(8, 20, true)]).unwrap();
    assert_eq!(batch.first_sequence, JournalSequence(7));
    assert_eq!(batch.last_sequence, JournalSequence(8));
    assert_eq!(batch.source, SourceId(20));
    assert_eq!(batch.event_count, 2);
    assert_eq!(batch.correction_count, 1);
}

#[test]
fn constructor_rejects_ambiguous_provider_symbols() {
    assert!(matches!(
        MarketInstrument::new(instruments::us100(), "NASDAQ 100".to_string(), "NDX".to_string(), 10_000),
        Err(MarketProjectorError::InvalidReferenceSymbol(_))
    ));
}

fn timeline_bar(index: i64, sequence: u64) -> CanonicalBar {
    CanonicalBar {
        ts_open_ns: index,
        ts_close_ns: index + 1,
        open: index,
        high: index,
        low: index,
        close: index,
        first_sequence: sequence,
        last_sequence: sequence,
        instrument_id: 1,
        observation_count: 1,
        revision: 0,
        derivation_version: 1,
        timeframe: Timeframe::M4.code(),
        flags: 0,
        reserved: 0,
    }
}

#[test]
fn chunked_series_bounds_hot_append_copying() {
    let mut timeline = BarTimeline::new(Timeframe::M4);
    for index in 0..300 {
        assert!(timeline.upsert(timeline_bar(index, index as u64 + 1)));
    }
    let cached = timeline.cached();
    assert_eq!(cached.blocks.len(), 1);
    assert_eq!(cached.blocks[0].len(), BAR_SERIES_BLOCK_LEN);
    assert_eq!(cached.tail.len(), 44);
    assert_eq!(cached.len, 300);
    assert_eq!(cached.get(255).unwrap().open, 255);
    assert_eq!(cached.get(256).unwrap().open, 256);
    assert_eq!(cached.last().unwrap().open, 299);
    assert!(cached.get(300).is_none());
}

#[test]
fn historical_insert_is_cold_but_ordered_and_lossless() {
    let mut timeline = BarTimeline::new(Timeframe::M4);
    for open in [10, 30, 20] {
        assert!(timeline.upsert(timeline_bar(open, open as u64)));
    }
    assert_eq!(timeline.cached().iter().iter().map(|bar| bar.ts_open_ns).collect::<Vec<_>>(), [10, 20, 30]);
}

fn command(kind: OperatorEntryKind, mutation: OperatorMutation) -> OperatorLedgerCommand {
    OperatorLedgerCommand {
        command_key: SourceEventKey(11),
        case_id: TradeCaseId(0),
        correlation_id: CorrelationId(0),
        instrument_id: instruments::us100(),
        submitted_ns: 10,
        entry_kind: kind,
        mutation,
        body: "typed operator evidence".to_string(),
    }
}

#[test]
fn interventions_and_reviews_cannot_create_context_free_cases() {
    for kind in [OperatorEntryKind::Intervention, OperatorEntryKind::Review] {
        assert!(command(kind, OperatorMutation::Append).validate().is_err());
    }
    assert!(command(OperatorEntryKind::Plan, OperatorMutation::Append).validate().is_ok());
}

#[test]
fn mutations_require_an_explicit_case_and_parent() {
    let amendment = command(OperatorEntryKind::Observation, OperatorMutation::Amend(LedgerEntryId(1)));
    assert!(amendment.validate().is_err());
}

#[test]
fn availability_never_treats_missing_as_a_value() {
    assert!(Availability::Live.has_value());
    assert!(Availability::Stale.has_value());
    assert!(!Availability::NotConfigured.has_value());
    assert!(!Availability::AwaitingFirstReceipt.has_value());
}

#[test]
fn page_notifications_skip_unrelated_domain_redraws() {
    assert!(OperatingPage::Desk.wants(DomainMask::macros()));
    assert!(OperatingPage::Ledger.wants(DomainMask::desk()));
    assert!(!OperatingPage::Ledger.wants(DomainMask::macros()));
    assert!(!OperatingPage::Systems.wants(DomainMask::ledger()));
}
