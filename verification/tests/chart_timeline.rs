use northstar_index_fund::data_plane::{CanonicalBar, Timeframe, MINUTE_NS};
use northstar_index_fund::operating::chart_timeline::{lower_bound, CanonicalTimeline};
use northstar_index_fund::operating::snapshot::BarSeriesSnapshot;

fn bar(slot: i64) -> CanonicalBar {
    CanonicalBar {
        ts_open_ns: slot * 4 * MINUTE_NS,
        ts_close_ns: (slot + 1) * 4 * MINUTE_NS,
        open: 100,
        high: 110,
        low: 90,
        close: 105,
        first_sequence: slot as u64 + 1,
        last_sequence: slot as u64 + 1,
        instrument_id: 1,
        observation_count: 1,
        revision: 0,
        derivation_version: 1,
        timeframe: Timeframe::M4.code(),
        flags: 0,
        reserved: 0,
    }
}

fn series() -> BarSeriesSnapshot {
    BarSeriesSnapshot {
        timeframe: Timeframe::M4,
        blocks: Vec::new(),
        tail: vec![bar(0), bar(1), bar(4)],
        len: 3,
        revision: 1,
    }
}

#[test]
fn logical_time_preserves_missing_bar_slots() {
    let series = series();
    let timeline = CanonicalTimeline::new(&series, Timeframe::M4).unwrap();
    assert_eq!(timeline.slots, 5);
    assert_eq!(timeline.logical_slot(series.get(1).unwrap()), 1);
    assert_eq!(timeline.logical_slot(series.get(2).unwrap()), 4);
    assert!(timeline.bar_at_slot(&series, 2).is_none());
    assert_eq!(timeline.bar_at_slot(&series, 4).unwrap().ts_open_ns, 16 * MINUTE_NS);
}

#[test]
fn timelines_need_the_series_timeframe_and_a_bar() {
    assert!(CanonicalTimeline::new(&series(), Timeframe::M20).is_none());
    assert!(CanonicalTimeline::new(&BarSeriesSnapshot::empty(Timeframe::M4), Timeframe::M4).is_none());
    assert_eq!(Timeframe::H4.duration_ns(), 240 * MINUTE_NS);
}

#[test]
fn slots_map_to_open_times_and_bar_ranges() {
    let series = series();
    let timeline = CanonicalTimeline::new(&series, Timeframe::M4).unwrap();
    assert_eq!(timeline.slot_time(3), 12 * MINUTE_NS);
    assert_eq!(timeline.slot_time(usize::MAX), i64::MAX);
    assert_eq!(timeline.bar_range(&series, 1, 4), (1, 2));
    assert_eq!(timeline.bar_range(&series, 0, 5), (0, 3));
    assert_eq!(lower_bound(&series, 5 * MINUTE_NS), 2);
    assert_eq!(lower_bound(&series, 100 * MINUTE_NS), 3);
    let mut before = bar(0);
    before.ts_open_ns = -MINUTE_NS;
    assert_eq!(timeline.logical_slot(&before), 0);
}
