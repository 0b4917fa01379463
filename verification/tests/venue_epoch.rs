use northstar_index_fund::data_plane::providers::tradelocker::{
    VenueAccountData, VenueContractData, VenueEpochData, VenueExecutionData, VenueOrderData, VenuePositionData,
    VenueQuoteData, VenueSide,
};
use northstar_index_fund::data_plane::InstrumentId;
use northstar_index_fund::operating::snapshot::Availability;
use northstar_index_fund::operating::venue::VenueSnapshot;

fn epoch_with_unknowns(unknown_orders: Vec<u64>, unknown_positions: Vec<u64>) -> VenueEpochData {
    VenueEpochData {
        ts_started_ns: 10,
        ts_received_ns: 20,
        config_fingerprint: [7; 16],
        account: VenueAccountData {
            account_id: 42,
            acc_num: 3,
            name: "main".to_string(),
            currency: "USD".to_string(),
            balance_micros: 1_000,
            projected_balance_micros: 1_100,
            available_funds_micros: 900,
            today_net_micros: 5,
            today_fees_micros: -2,
            open_net_pnl_micros: 12,
        },
        contracts: vec![VenueContractData {
            instrument: InstrumentId(2),
            provider_symbol: "US500".to_string(),
            tradable_instrument_id: 77,
            info_route_id: 1,
            trade_route_id: 2,
            session_id: 3,
            minimum_quantity_micros: 10_000,
            quantity_step_micros: 10_000,
            price_tick_nanos: 10_000_000,
            price_precision: 2,
            session_open: true,
        }],
        quotes: vec![VenueQuoteData {
            instrument: InstrumentId(2),
            tradable_instrument_id: 77,
            bid_scaled: 100,
            ask_scaled: 102,
            midpoint_scaled: 101,
            price_scale: 100,
        }],
        positions: vec![
            VenuePositionData {
                id: 5,
                instrument: InstrumentId(2),
                side: VenueSide::Buy,
                quantity_micros: 3_000_000,
                average_price_nanos: 1,
                unrealized_pnl_micros: 40,
                opened_ms: 1,
            },
            VenuePositionData {
                id: 6,
                instrument: InstrumentId(2),
                side: VenueSide::Sell,
                quantity_micros: 1_000_000,
                average_price_nanos: 1,
                unrealized_pnl_micros: -10,
                opened_ms: 2,
            },
        ],
        open_orders: vec![VenueOrderData {
            id: 11,
            position_id: 5,
            instrument: InstrumentId(2),
            side: VenueSide::Buy,
            order_type: "limit".to_string(),
            status: "New".to_string(),
            quantity_micros: 1_000_000,
            filled_quantity_micros: 0,
            average_price_nanos: 0,
            created_ms: 3,
            is_open: true,
        }],
        final_orders: Vec::new(),
        executions: vec![VenueExecutionData {
            id: 13,
            order_id: 11,
            position_id: 5,
            instrument: InstrumentId(2),
            side: VenueSide::Buy,
            quantity_micros: 1_000_000,
            price_nanos: 9,
            created_ms: 4,
        }],
        unknown_orders,
        unknown_positions,
    }
}

#[test]
fn reconciled_epoch_reads_coherent() {
    let snapshot = VenueSnapshot::from_epoch(9, epoch_with_unknowns(Vec::new(), Vec::new()));
    assert_eq!(snapshot.generation, 9);
    assert_eq!(snapshot.availability, Availability::Live);
    assert_eq!(snapshot.as_of_ns, 20);
    assert_eq!(snapshot.refresh_started_ns, 10);
    assert_eq!(snapshot.config_fingerprint, [7; 16]);
    assert_eq!(snapshot.health, "coherent / account truth reconciled");
    let account = snapshot.account.as_ref().expect("account");
    assert_eq!(account.id, 42);
    assert_eq!(account.name, "main");
    assert_eq!(account.today_fees_micros, -2);
    assert_eq!(snapshot.contracts.len(), 1);
    assert_eq!(snapshot.contracts[0].symbol, "US500");
    assert_eq!(snapshot.open_orders.len(), 1);
    assert_eq!(snapshot.open_orders[0].status, "New");
    assert!(snapshot.final_orders.is_empty());
    assert_eq!(snapshot.executions[0].price_nanos, 9);
}

#[test]
fn unplaced_venue_objects_are_counted_in_health() {
    let snapshot = VenueSnapshot::from_epoch(1, epoch_with_unknowns(vec![100], vec![200, 201]));
    assert_eq!(snapshot.health, "coherent / 3 unknown venue object(s)");
    assert_eq!(snapshot.unknown_orders, vec![100]);
    assert_eq!(snapshot.unknown_positions, vec![200, 201]);
}

#[test]
fn epoch_quotes_and_exposure_follow_the_read() {
    let snapshot = VenueSnapshot::from_epoch(1, epoch_with_unknowns(Vec::new(), Vec::new()));
    let quote = snapshot.quote(InstrumentId(2)).expect("quote");
    assert_eq!(quote.midpoint_scaled, 101);
    assert!(snapshot.quote(InstrumentId(3)).is_none());
    assert_eq!(snapshot.exposure_for(InstrumentId(2)), (2_000_000, 30));
}

#[test]
fn successor_advances_the_generation() {
    let first = VenueSnapshot::unavailable(Availability::NotConfigured, "not configured".to_string());
    let next = first.successor(epoch_with_unknowns(Vec::new(), Vec::new()));
    assert_eq!(next.generation, 1);
    let after = next.successor(epoch_with_unknowns(vec![1], Vec::new()));
    assert_eq!(after.generation, 2);
    assert_eq!(after.health, "coherent / 1 unknown venue object(s)");
}

#[test]
fn refresh_failure_before_any_epoch_takes_the_failure_availability() {
    let never = VenueSnapshot::unavailable(Availability::NotConfigured, "not configured".to_string());
    let failed = never.after_refresh_failure(Availability::Disconnected, "TradeLocker refresh rejected".to_string());
    assert_eq!(failed.availability, Availability::Disconnected);
    assert_eq!(failed.health, "TradeLocker refresh rejected");
}

#[test]
fn refresh_failure_after_an_epoch_keeps_truth_and_reads_stale() {
    let live = VenueSnapshot::from_epoch(4, epoch_with_unknowns(Vec::new(), Vec::new()));
    let failed = live.after_refresh_failure(Availability::Disconnected, "TradeLocker refresh rejected".to_string());
    assert_eq!(failed.availability, Availability::Stale);
    assert_eq!(failed.generation, 4);
    assert_eq!(failed.positions.len(), 2);
    assert_eq!(failed.health, "TradeLocker refresh rejected");
}
