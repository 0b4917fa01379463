use northstar_index_fund::data_plane::instruments;
use northstar_index_fund::data_plane::{
    CanonicalBar, EventKind, InstrumentId, JournalSequence, SourceId, StreamId, Timeframe, MINUTE_NS,
};
use northstar_index_fund::operating::market::projector::{
    BarAggregation, MarketEvent, MarketProjector, TimeQuality, MAX_DESK_INSTRUMENTS,
};
use northstar_index_fund::operating::market::{MarketInstrument, MarketProjectorError, ReferenceRole, TIMEFRAME_COUNT};
use northstar_index_fund::operating::massive_market::{
    projector_from_massive_catalog, MassiveIndexBinding, MassiveReferenceRole,
};
use northstar_index_fund::operating::snapshot::{Availability, OperatingMode};
use std::sync::Arc;

fn instrument() -> MarketInstrument {
    MarketInstrument::new(instruments::us100(), "NASDAQ 100".to_string(), "I:NDX".to_string(), 10_000).unwrap()
}

fn named(id: u32) -> MarketInstrument {
    MarketInstrument::new(InstrumentId(id), format!("Index {id}"), format!("I:X{id}"), 100).unwrap()
}

fn projector(mode: OperatingMode) -> MarketProjector {
    MarketProjector::new(mode, vec![instrument()]).unwrap()
}

fn no_bars() -> BarAggregation {
    BarAggregation { bars: Vec::new(), rejected: 0 }
}

fn index_value(sequence: u64, minute: i64, value: i64) -> MarketEvent {
    let timestamp = minute * MINUTE_NS;
    MarketEvent {
        journal_sequence: JournalSequence(sequence),
        kind: Some(EventKind::IndexValue),
        instrument_id: instruments::us100(),
        source: SourceId(1),
        stream: StreamId(1),
        ts_event_ns: timestamp,
        ts_received_ns: timestamp + 1,
        ts_effective_ns: timestamp,
        time_quality: TimeQuality::ObservedLive,
        flags: 0,
        values: [value, 0, 0, 0, 0, 0],
    }
}

fn external_bar(sequence: u64, open: i64, high: i64, low: i64, close: i64, timeframe: i64) -> MarketEvent {
    MarketEvent {
        journal_sequence: JournalSequence(sequence),
        kind: Some(EventKind::ExternalBar),
        instrument_id: instruments::us100(),
        source: SourceId(10),
        stream: StreamId(2),
        ts_event_ns: 5 * MINUTE_NS,
        ts_received_ns: 5 * MINUTE_NS,
        ts_effective_ns: 5 * MINUTE_NS,
        time_quality: TimeQuality::EstimatedHistorical,
        flags: 0,
        values: [open, high, low, close, 4 * MINUTE_NS, timeframe],
    }
}

#[test]
fn intrabar_value_updates_reuse_unchanged_series_arcs() {
    let mut projector = projector(OperatingMode::LiveData);
    let first_snapshot = projector.apply_batch(&[index_value(1, 1, 200_000_000)], &no_bars()).unwrap();
    let second_snapshot = projector.apply_batch(&[index_value(2, 2, 200_050_000)], &no_bars()).unwrap();
    let first_index = &first_snapshot.instruments[0];
    let second_index = &second_snapshot.instruments[0];
    assert!(!Arc::ptr_eq(first_index, second_index));
    for slot in 0..TIMEFRAME_COUNT {
        assert!(Arc::ptr_eq(&first_index.series[slot], &second_index.series[slot]));
    }
}

#[test]
fn external_aggregate_bar_populates_chart_without_claiming_live() {
    let mut projector = projector(OperatingMode::LiveData);
    let events = [external_bar(1, 200_000_000, 200_200_000, 199_900_000, 200_100_000, Timeframe::M4.code() as i64)];
    let snapshot = projector.apply_batch(&events, &no_bars()).unwrap();
    let index = &snapshot.instruments[0];
    assert_eq!(snapshot.availability, Availability::Stale);
    let value = index.reference.value_scaled as f64 / index.reference.price_scale as f64;
    assert_eq!(Some(value), Some(20_010.0));
    assert_eq!(index.reference.meta.availability, Availability::Stale);
    assert_eq!(index.series(Timeframe::M4).len, 1);
    assert_eq!(index.series(Timeframe::M4).last().unwrap().high, 200_200_000);
    assert_eq!(projector.health().external_bars, 1);
}

#[test]
fn constructor_refuses_empty_oversized_and_duplicate_sets() {
    assert!(matches!(
        MarketProjector::new(OperatingMode::LiveData, Vec::new()),
        Err(MarketProjectorError::EmptyInstrumentSet)
    ));
    let many: Vec<_> = (1..=(MAX_DESK_INSTRUMENTS as u32 + 1)).map(named).collect();
    assert!(matches!(
        MarketProjector::new(OperatingMode::LiveData, many),
        Err(MarketProjectorError::TooManyInstruments(65))
    ));
    let duplicated = vec![named(9), named(4), named(9), named(4), named(2)];
    assert_eq!(
        MarketProjector::new(OperatingMode::LiveData, duplicated).err(),
        Some(MarketProjectorError::DuplicateInstrument(InstrumentId(4)))
    );
}

#[test]
fn desk_lists_instruments_in_identity_order() {
    let projector = MarketProjector::new(OperatingMode::OfflineReplay, vec![named(30), named(10), named(20)]).unwrap();
    let desk = projector.current_snapshot(Availability::AwaitingFirstReceipt);
    let ids: Vec<u32> = desk.instruments.iter().map(|entry| entry.instrument.id.0).collect();
    assert_eq!(ids, vec![10, 20, 30]);
    assert_eq!(desk.generation, 0);
    assert_eq!(desk.availability, Availability::AwaitingFirstReceipt);
    assert_eq!(desk.instruments[0].reference.meta.availability, Availability::AwaitingFirstReceipt);
    assert_eq!(desk.instruments[0].venue.meta.availability, Availability::NotConfigured);
}

#[test]
fn batches_without_desk_events_publish_nothing() {
    let mut projector = projector(OperatingMode::LiveData);
    let mut unknown = index_value(1, 1, 1);
    unknown.instrument_id = InstrumentId(99);
    let mut ignored = index_value(2, 1, 1);
    ignored.kind = Some(EventKind::MacroRelease);
    let mut invalid = index_value(3, 1, 1);
    invalid.kind = None;
    let bad_timeframe = external_bar(4, 1, 1, 1, 1, 99);
    assert!(projector.apply_batch(&[unknown, ignored, invalid, bad_timeframe], &no_bars()).is_none());
    let health = projector.health();
    assert_eq!(health.batches, 1);
    assert_eq!(health.events_seen, 4);
    assert_eq!(health.unknown_instruments, 1);
    assert_eq!(health.ignored_events, 1);
    assert_eq!(health.invalid_events, 2);
    assert_eq!(health.last_sequence, JournalSequence(4));
}

#[test]
fn aggregated_bars_join_only_batches_with_reference_values() {
    let mut projector = projector(OperatingMode::LiveData);
    let bar = CanonicalBar {
        ts_open_ns: 0,
        ts_close_ns: 4 * MINUTE_NS,
        open: 1,
        high: 2,
        low: 0,
        close: 1,
        first_sequence: 1,
        last_sequence: 1,
        instrument_id: instruments::us100().get(),
        observation_count: 4,
        revision: 0,
        derivation_version: 1,
        timeframe: Timeframe::M4.code(),
        flags: 0,
        reserved: 0,
    };
    let mut quote = index_value(1, 1, 0);
    quote.kind = Some(EventKind::VenueQuote);
    quote.values = [10, 12, 11, 0, 0, 0];
    let aggregation = BarAggregation { bars: vec![bar], rejected: 2 };
    let desk = projector.apply_batch(&[quote], &aggregation).unwrap();
    assert_eq!(desk.instruments[0].series(Timeframe::M4).len, 0);
    assert_eq!(desk.instruments[0].venue.midpoint_scaled, 11);
    let desk = projector.apply_batch(&[index_value(2, 5, 7)], &aggregation).unwrap();
    assert_eq!(desk.instruments[0].series(Timeframe::M4).len, 1);
    assert_eq!(desk.instruments[0].reference.value_scaled, 7);
    assert_eq!(desk.generation, 2);
    assert_eq!(projector.health().bar_rejections, 4);
}

#[test]
fn replay_and_live_publish_the_same_values() {
    let mut live = projector(OperatingMode::LiveData);
    let mut replay = projector(OperatingMode::OfflineReplay);
    let events = [index_value(1, 1, 200_000_000), index_value(2, 2, 200_100_000)];
    let live_desk = live.apply_batch(&events, &no_bars()).unwrap();
    let replay_desk = replay.apply_batch(&events, &no_bars()).unwrap();
    let live_index = &live_desk.instruments[0];
    let replay_index = &replay_desk.instruments[0];
    assert_eq!(live_index.reference.value_scaled, replay_index.reference.value_scaled);
    assert_eq!(live_index.reference.meta.journal_sequence, replay_index.reference.meta.journal_sequence);
    assert_eq!(live_index.reference.meta.availability, Availability::Live);
    assert_eq!(replay_index.reference.meta.availability, Availability::Replaying);
    assert_eq!(live_desk.availability, Availability::Live);
    assert_eq!(replay_desk.availability, Availability::Replaying);
    assert_eq!(live_desk.published_ns, 2 * MINUTE_NS + 1);
}

#[test]
fn proxy_role_reaches_the_immutable_desk_instrument() {
    let bindings = vec![MassiveIndexBinding {
        instrument: instruments::de40(),
        display_name: "Germany context".to_string(),
        provider_ticker: "I:BDE40P".to_string(),
        price_scale: 100,
        reference_role: MassiveReferenceRole::ReferenceProxy,
    }];
    let projector = projector_from_massive_catalog(OperatingMode::LiveData, &bindings).unwrap();
    let snapshot = projector.current_snapshot(Availability::AwaitingFirstReceipt);
    assert_eq!(snapshot.instruments[0].instrument.reference_role, ReferenceRole::ContextProxy);
}

#[test]
fn catalog_refuses_the_first_invalid_binding() {
    let binding = |id: u32, ticker: &str, scale: i64| MassiveIndexBinding {
        instrument: InstrumentId(id),
        display_name: format!("Index {id}"),
        provider_ticker: ticker.to_string(),
        price_scale: scale,
        reference_role: MassiveReferenceRole::ExactBenchmark,
    };
    let refused = projector_from_massive_catalog(
        OperatingMode::LiveData,
        &[binding(1, "I:A", 100), binding(2, "B", 100), binding(3, "I:C", 0)],
    );
    assert_eq!(refused.err(), Some(MarketProjectorError::InvalidReferenceSymbol("B".to_string())));
    let duplicated = projector_from_massive_catalog(OperatingMode::LiveData, &[binding(5, "I:A", 1), binding(5, "I:B", 1)]);
    assert_eq!(duplicated.err(), Some(MarketProjectorError::DuplicateInstrument(InstrumentId(5))));
    let exact = projector_from_massive_catalog(OperatingMode::LiveData, &[binding(7, "I:NDX", 10_000)]).unwrap();
    let desk = exact.current_snapshot(Availability::AwaitingFirstReceipt);
    assert_eq!(desk.instruments[0].instrument.reference_role, ReferenceRole::ExactBenchmark);
    assert_eq!(desk.instruments[0].instrument.reference_symbol, "I:NDX");
}

#[test]
fn live_and_replay_publish_identical_market_values_and_bars() {
    // The committed batch carries two index values; the M4 bar they close is
    // what the bar aggregator hands the projector for that batch.
    let events = [index_value(1, 1, 200_000_000), index_value(2, 5, 200_100_000)];
    let closed = CanonicalBar {
        ts_open_ns: 0,
        ts_close_ns: 4 * MINUTE_NS,
        open: 200_000_000,
        high: 200_000_000,
        low: 200_000_000,
        close: 200_000_000,
        first_sequence: 1,
        last_sequence: 1,
        instrument_id: instruments::us100().get(),
        observation_count: 1,
        revision: 0,
        derivation_version: 1,
        timeframe: Timeframe::M4.code(),
        flags: 0,
        reserved: 0,
    };
    let aggregation = BarAggregation { bars: vec![closed], rejected: 0 };
    let mut live = projector(OperatingMode::LiveData);
    let mut replay = projector(OperatingMode::OfflineReplay);
    let live_snapshot = live.apply_batch(&events, &aggregation).unwrap();
    let replay_snapshot = replay.apply_batch(&events, &aggregation).unwrap();

    let live_index = &live_snapshot.instruments[0];
    let replay_index = &replay_snapshot.instruments[0];
    assert_eq!(live_index.reference.value_scaled, replay_index.reference.value_scaled);
    assert_eq!(
        live_index.reference.value_scaled as f64 / live_index.reference.price_scale as f64,
        20_010.0
    );
    let live_m4 = live_index.series(Timeframe::M4);
    let replay_m4 = replay_index.series(Timeframe::M4);
    assert_eq!(live_m4.len, 1);
    assert_eq!(live_m4.len, replay_m4.len);
    assert_eq!(live_m4.iter(), replay_m4.iter());
    assert_eq!(live_index.reference.meta.availability, Availability::Live);
    assert_eq!(replay_index.reference.meta.availability, Availability::Replaying);
}

#[test]
fn live_and_replay_agree_over_many_batches() {
    let mut live = projector(OperatingMode::LiveData);
    let mut replay = projector(OperatingMode::OfflineReplay);
    let batches = [
        vec![index_value(1, 1, 200_000_000)],
        vec![index_value(2, 2, 200_050_000), index_value(3, 3, 200_010_000)],
        vec![external_bar(4, 200_000_000, 200_200_000, 199_900_000, 200_100_000, Timeframe::M4.code() as i64)],
    ];
    for events in batches.iter() {
        let a = live.apply_batch(events, &no_bars()).unwrap();
        let b = replay.apply_batch(events, &no_bars()).unwrap();
        assert_eq!(a.instruments[0].reference.value_scaled, b.instruments[0].reference.value_scaled);
        assert_eq!(a.instruments[0].series(Timeframe::M4).iter(), b.instruments[0].series(Timeframe::M4).iter());
        assert_eq!(b.instruments[0].reference.meta.availability, Availability::Replaying);
        assert_eq!(b.availability, Availability::Replaying);
    }
}
