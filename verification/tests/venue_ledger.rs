use northstar_index_fund::data_plane::instruments;
use northstar_index_fund::ledger::{LedgerEventKind, LedgerEventStatus};
use northstar_index_fund::operating::ledger_commands::AutomaticCasePolicy;
use northstar_index_fund::operating::snapshot::Availability;
use northstar_index_fund::operating::venue::{
    VenueAccountSnapshot, VenueExecutionSnapshotV1, VenueOrderSnapshotV1, VenuePositionSnapshotV1, VenueSide,
    VenueSnapshot,
};
use northstar_index_fund::operating::venue_ledger::{
    lifecycle_correlation, venue_ledger_events, VenueEpochFigures, VenueFigures, TRADELOCKER_ACTOR_ID,
};

#[test]
fn stable_lifecycle_correlation_prefers_position_identity() {
    assert_eq!(lifecycle_correlation(1, 7, 8), lifecycle_correlation(1, 7, 999));
    assert_ne!(lifecycle_correlation(1, 7, 8), lifecycle_correlation(1, 9, 8));
}

fn figures(quantity: &str, price: &str, money: &str) -> VenueFigures {
    VenueFigures { quantity: quantity.to_string(), price: price.to_string(), money: money.to_string() }
}

fn epoch() -> VenueSnapshot {
    let mut snapshot = VenueSnapshot::unavailable(Availability::Live, "ok".to_string());
    snapshot.generation = 3;
    snapshot.as_of_ns = 5_000_000_000;
    snapshot.account = Some(VenueAccountSnapshot {
        id: 42,
        acc_num: 1,
        name: "main".to_string(),
        currency: "USD".to_string(),
        balance_micros: 0,
        projected_balance_micros: 0,
        available_funds_micros: 0,
        today_net_micros: 0,
        today_fees_micros: 0,
        open_net_pnl_micros: 0,
    });
    snapshot.open_orders.push(VenueOrderSnapshotV1 {
        id: 11,
        position_id: 0,
        instrument: instruments::us100(),
        side: VenueSide::Buy,
        order_type: "limit".to_string(),
        status: "New".to_string(),
        quantity_micros: 1_500_000,
        filled_quantity_micros: 0,
        average_price_nanos: 0,
        created_ms: 2_000,
        is_open: true,
    });
    snapshot.positions.push(VenuePositionSnapshotV1 {
        id: 21,
        instrument: instruments::us100(),
        side: VenueSide::Sell,
        quantity_micros: 1_000_000,
        average_price_nanos: 20_000_000_000_000,
        unrealized_pnl_micros: -2_500_000,
        opened_ms: 0,
    });
    snapshot.executions.push(VenueExecutionSnapshotV1 {
        id: 31,
        order_id: 11,
        position_id: 21,
        instrument: instruments::us100(),
        side: VenueSide::Sell,
        quantity_micros: 1_000_000,
        price_nanos: 20_000_000_000_000,
        created_ms: 3_000,
    });
    snapshot
}

fn epoch_figures() -> VenueEpochFigures {
    VenueEpochFigures {
        orders: vec![figures("1.500000", "0.00000", "")],
        positions: vec![figures("1.000000", "20000.00000", "-2.50")],
        executions: vec![figures("1.000000", "20000.00000", "")],
    }
}

#[test]
fn epoch_without_account_records_nothing() {
    let snapshot = VenueSnapshot::unavailable(Availability::Live, "waiting".to_string());
    let events = venue_ledger_events(
        &snapshot,
        &VenueEpochFigures { orders: Vec::new(), positions: Vec::new(), executions: Vec::new() },
    );
    assert!(events.is_empty());
}

#[test]
fn epoch_receipt_then_orders_positions_executions() {
    let snapshot = epoch();
    let events = venue_ledger_events(&snapshot, &epoch_figures());
    assert_eq!(events.len(), 4);
    let receipt = &events[0];
    assert_eq!(receipt.kind, LedgerEventKind::Reconciliation);
    assert_eq!(receipt.status, LedgerEventStatus::Accepted);
    assert_eq!(receipt.case_policy, AutomaticCasePolicy::NoCase);
    assert_eq!(receipt.actor_id.0, TRADELOCKER_ACTOR_ID);
    assert_eq!(receipt.ts_event_ns, 5_000_000_000);
    assert_eq!(
        String::from_utf8(receipt.body.clone()).unwrap(),
        "TradeLocker coherent epoch 3: 0 contracts, 0 quotes, 1 positions, 1 open orders, 1 executions, 0 unknown objects."
    );
    let order = &events[1];
    assert_eq!(order.kind, LedgerEventKind::Order);
    assert_eq!(order.status, LedgerEventStatus::Pending);
    assert_eq!(order.case_policy, AutomaticCasePolicy::Correlate);
    assert_eq!(order.correlation_id, lifecycle_correlation(42, 0, 11));
    assert_eq!(order.ts_event_ns, 2_000_000_000);
    assert_eq!(
        String::from_utf8(order.body.clone()).unwrap(),
        "TradeLocker order 11 BUY 1.500000 limit @ 0.00000 / status New."
    );
    let position = &events[2];
    assert_eq!(position.kind, LedgerEventKind::Position);
    assert_eq!(position.status, LedgerEventStatus::Observed);
    assert_eq!(position.ts_event_ns, 5_000_000_000);
    assert_eq!(
        String::from_utf8(position.body.clone()).unwrap(),
        "TradeLocker position 21 SELL 1.000000 @ 20000.00000 / open P&L -2.50 USD."
    );
    let execution = &events[3];
    assert_eq!(execution.kind, LedgerEventKind::Fill);
    assert_eq!(execution.correlation_id, lifecycle_correlation(42, 21, 11));
    assert_eq!(execution.correlation_id, position.correlation_id);
    assert_eq!(
        String::from_utf8(execution.body.clone()).unwrap(),
        "TradeLocker execution 31 filled order 11 / position 21 / SELL 1.000000 @ 20000.00000."
    );
    for event in &events {
        assert!(event.validate().is_ok());
    }
}

#[test]
fn repeated_epochs_keep_their_keys_and_unknown_objects_are_incidents() {
    let first = venue_ledger_events(&epoch(), &epoch_figures());
    let second = venue_ledger_events(&epoch(), &epoch_figures());
    for (a, b) in first.iter().zip(second.iter()) {
        assert_eq!(a.source_key, b.source_key);
    }
    assert_ne!(first[1].source_key, first[2].source_key);
    let mut snapshot = epoch();
    snapshot.unknown_orders.push(77);
    let events = venue_ledger_events(&snapshot, &epoch_figures());
    assert_eq!(events[0].status, LedgerEventStatus::Incident);
    assert_ne!(events[0].source_key.0, 0);
}
