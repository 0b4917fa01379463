//! Venue account truth: account, contracts, quotes, positions, orders and
//! executions of one reconciled epoch.

use super::snapshot::Availability;
use crate::data_plane::providers::tradelocker::{
    VenueAccountData, VenueContractData, VenueEpochData, VenueExecutionData, VenueOrderData,
    VenuePositionData, VenueQuoteData,
};
pub use crate::data_plane::providers::tradelocker::VenueSide;
use crate::data_plane::InstrumentId;
use crate::text::{append_decimal, decimal_text};
use vstd::prelude::*;

verus! {

/// The venue account.
#[derive(Clone, Debug)]
pub struct VenueAccountSnapshot {
    pub id: u64,
    pub acc_num: u64,
    pub name: String,
    pub currency: String,
    pub balance_micros: i64,
    pub projected_balance_micros: i64,
    pub available_funds_micros: i64,
    pub today_net_micros: i64,
    pub today_fees_micros: i64,
    pub open_net_pnl_micros: i64,
}

/// A tradable venue contract.
#[derive(Clone, Debug)]
pub struct VenueContractSnapshot {
    pub instrument: InstrumentId,
    pub symbol: String,
    pub tradable_instrument_id: u64,
    pub info_route_id: u32,
    pub trade_route_id: u32,
    pub session_id: u32,
    pub minimum_quantity_micros: i64,
    pub quantity_step_micros: i64,
    pub price_tick_nanos: i64,
    pub price_precision: u16,
    pub session_open: bool,
}

/// A venue quote.
#[derive(Clone, Copy, Debug, PartialEq, Eq, Structural)]
pub struct VenueQuoteSnapshotV1 {
    pub instrument: InstrumentId,
    pub tradable_instrument_id: u64,
    pub bid_scaled: i64,
    pub ask_scaled: i64,
    pub midpoint_scaled: i64,
    pub price_scale: i64,
}

/// A venue position.
#[derive(Clone, Copy, Debug, PartialEq, Eq, Structural)]
pub struct VenuePositionSnapshotV1 {
    pub id: u64,
    pub instrument: InstrumentId,
    pub side: VenueSide,
    pub quantity_micros: i64,
    pub average_price_nanos: i64,
    pub unrealized_pnl_micros: i64,
    pub opened_ms: i64,
}

/// A venue order.
#[derive(Clone, Debug)]
pub struct VenueOrderSnapshotV1 {
    pub id: u64,
    pub position_id: u64,
    pub instrument: InstrumentId,
    pub side: VenueSide,
    pub order_type: String,
    pub status: String,
    pub quantity_micros: i64,
    pub filled_quantity_micros: i64,
    pub average_price_nanos: i64,
    pub created_ms: i64,
    pub is_open: bool,
}

/// A venue execution.
#[derive(Clone, Copy, Debug, PartialEq, Eq, Structural)]
pub struct VenueExecutionSnapshotV1 {
    pub id: u64,
    pub order_id: u64,
    pub position_id: u64,
    pub instrument: InstrumentId,
    pub side: VenueSide,
    pub quantity_micros: i64,
    pub price_nanos: i64,
    pub created_ms: i64,
}

/// The venue's truth at one reconciled epoch.
#[derive(Clone, Debug)]
pub struct VenueSnapshot {
    pub generation: u64,
    pub availability: Availability,
    pub as_of_ns: i64,
    pub refresh_started_ns: i64,
    pub config_fingerprint: [u8; 16],
    pub account: Option<VenueAccountSnapshot>,
    pub contracts: Vec<VenueContractSnapshot>,
    pub quotes: Vec<VenueQuoteSnapshotV1>,
    pub positions: Vec<VenuePositionSnapshotV1>,
    pub open_orders: Vec<VenueOrderSnapshotV1>,
    pub final_orders: Vec<VenueOrderSnapshotV1>,
    pub executions: Vec<VenueExecutionSnapshotV1>,
    pub unknown_orders: Vec<u64>,
    pub unknown_positions: Vec<u64>,
    pub health: String,
}

/// `a + b` limited to the `i64` range.
pub open spec fn saturating_add_spec(a: i64, b: i64) -> i64 {
    if a + b > i64::MAX {
        i64::MAX
    } else if a + b < i64::MIN {
        i64::MIN
    } else {
        (a + b) as i64
    }
}

/// Signed quantity of a position: long positive, short negative (the most
/// negative quantity stays as it is), unknown sides count nothing.
pub open spec fn signed_quantity(position: VenuePositionSnapshotV1) -> i64 {
    match position.side {
        VenueSide::Buy => position.quantity_micros,
        VenueSide::Sell => if position.quantity_micros == i64::MIN {
            i64::MIN
        } else {
            (-position.quantity_micros) as i64
        },
        VenueSide::Unknown => 0,
    }
}

/// Net signed quantity and unrealized P&L of the first `n` positions in
/// `instrument`, each accumulated with saturating addition.
pub open spec fn exposure_prefix(positions: Seq<VenuePositionSnapshotV1>, instrument: InstrumentId, n: nat) -> (i64, i64)
    decreases n,
{
    if n == 0 {
        (0, 0)
    } else {
        let (quantity, pnl) = exposure_prefix(positions, instrument, (n - 1) as nat);
        let position = positions[n - 1];
        if position.instrument == instrument {
            (
                saturating_add_spec(quantity, signed_quantity(position)),
                saturating_add_spec(pnl, position.unrealized_pnl_micros),
            )
        } else {
            (quantity, pnl)
        }
    }
}

/// The account snapshot carries every field of the account as read.
pub open spec fn account_matches(account: VenueAccountSnapshot, data: VenueAccountData) -> bool {
    &&& account.id == data.account_id
    &&& account.acc_num == data.acc_num
    &&& account.name@ == data.name@
    &&& account.currency@ == data.currency@
    &&& account.balance_micros == data.balance_micros
    &&& account.projected_balance_micros == data.projected_balance_micros
    &&& account.available_funds_micros == data.available_funds_micros
    &&& account.today_net_micros == data.today_net_micros
    &&& account.today_fees_micros == data.today_fees_micros
    &&& account.open_net_pnl_micros == data.open_net_pnl_micros
}

/// The contract snapshot carries every field of the contract as read, the
/// venue's symbol included.
pub open spec fn contract_matches(contract: VenueContractSnapshot, data: VenueContractData) -> bool {
    &&& contract.instrument == data.instrument
    &&& contract.symbol@ == data.provider_symbol@
    &&& contract.tradable_instrument_id == data.tradable_instrument_id
    &&& contract.info_route_id == data.info_route_id
    &&& contract.trade_route_id == data.trade_route_id
    &&& contract.session_id == data.session_id
    &&& contract.minimum_quantity_micros == data.minimum_quantity_micros
    &&& contract.quantity_step_micros == data.quantity_step_micros
    &&& contract.price_tick_nanos == data.price_tick_nanos
    &&& contract.price_precision == data.price_precision
    &&& contract.session_open == data.session_open
}

/// The order snapshot carries every field of the order as read.
pub open spec fn order_matches(order: VenueOrderSnapshotV1, data: VenueOrderData) -> bool {
    &&& order.id == data.id
    &&& order.position_id == data.position_id
    &&& order.instrument == data.instrument
    &&& order.side == data.side
    &&& order.order_type@ == data.order_type@
    &&& order.status@ == data.status@
    &&& order.quantity_micros == data.quantity_micros
    &&& order.filled_quantity_micros == data.filled_quantity_micros
    &&& order.average_price_nanos == data.average_price_nanos
    &&& order.created_ms == data.created_ms
    &&& order.is_open == data.is_open
}

/// Each order snapshot matches the order read at the same place.
pub open spec fn orders_match(orders: Seq<VenueOrderSnapshotV1>, data: Seq<VenueOrderData>) -> bool {
    &&& orders.len() == data.len()
    &&& forall|i: int| 0 <= i < data.len() ==> order_matches(#[trigger] orders[i], data[i])
}

/// The quote snapshot of a quote as read.
pub open spec fn quote_from(data: VenueQuoteData) -> VenueQuoteSnapshotV1 {
    VenueQuoteSnapshotV1 {
        instrument: data.instrument,
        tradable_instrument_id: data.tradable_instrument_id,
        bid_scaled: data.bid_scaled,
        ask_scaled: data.ask_scaled,
        midpoint_scaled: data.midpoint_scaled,
        price_scale: data.price_scale,
    }
}

/// The position snapshot of a position as read.
pub open spec fn position_from(data: VenuePositionData) -> VenuePositionSnapshotV1 {
    VenuePositionSnapshotV1 {
        id: data.id,
        instrument: data.instrument,
        side: data.side,
        quantity_micros: data.quantity_micros,
        average_price_nanos: data.average_price_nanos,
        unrealized_pnl_micros: data.unrealized_pnl_micros,
        opened_ms: data.opened_ms,
    }
}

/// The execution snapshot of an execution as read.
pub open spec fn execution_from(data: VenueExecutionData) -> VenueExecutionSnapshotV1 {
    VenueExecutionSnapshotV1 {
        id: data.id,
        order_id: data.order_id,
        position_id: data.position_id,
        instrument: data.instrument,
        side: data.side,
        quantity_micros: data.quantity_micros,
        price_nanos: data.price_nanos,
        created_ms: data.created_ms,
    }
}

/// Health text of a reconciled epoch with `unknown` objects the catalog
/// could not place.
pub open spec fn epoch_health(unknown: nat) -> Seq<char> {
    if unknown == 0 {
        "coherent / account truth reconciled"@
    } else {
        "coherent / "@ + decimal_text(unknown) + " unknown venue object(s)"@
    }
}

fn account_snapshot(data: &VenueAccountData) -> (account: VenueAccountSnapshot)
    ensures
        account_matches(account, *data),
{
    VenueAccountSnapshot {
        id: data.account_id,
        acc_num: data.acc_num,
        name: data.name.clone(),
        currency: data.currency.clone(),
        balance_micros: data.balance_micros,
        projected_balance_micros: data.projected_balance_micros,
        available_funds_micros: data.available_funds_micros,
        today_net_micros: data.today_net_micros,
        today_fees_micros: data.today_fees_micros,
        open_net_pnl_micros: data.open_net_pnl_micros,
    }
}

fn contract_snapshot(data: &VenueContractData) -> (contract: VenueContractSnapshot)
    ensures
        contract_matches(contract, *data),
{
    VenueContractSnapshot {
        instrument: data.instrument,
        symbol: data.provider_symbol.clone(),
        tradable_instrument_id: data.tradable_instrument_id,
        info_route_id: data.info_route_id,
        trade_route_id: data.trade_route_id,
        session_id: data.session_id,
        minimum_quantity_micros: data.minimum_quantity_micros,
        quantity_step_micros: data.quantity_step_micros,
        price_tick_nanos: data.price_tick_nanos,
        price_precision: data.price_precision,
        session_open: data.session_open,
    }
}

fn order_snapshot(data: &VenueOrderData) -> (order: VenueOrderSnapshotV1)
    ensures
        order_matches(order, *data),
{
    VenueOrderSnapshotV1 {
        id: data.id,
        position_id: data.position_id,
        instrument: data.instrument,
        side: data.side,
        order_type: data.order_type.clone(),
        status: data.status.clone(),
        quantity_micros: data.quantity_micros,
        filled_quantity_micros: data.filled_quantity_micros,
        average_price_nanos: data.average_price_nanos,
        created_ms: data.created_ms,
        is_open: data.is_open,
    }
}

fn order_snapshots(data: &Vec<VenueOrderData>) -> (orders: Vec<VenueOrderSnapshotV1>)
    ensures
        orders_match(orders@, data@),
{
    let mut orders: Vec<VenueOrderSnapshotV1> = Vec::new();
    let n = data.len();
    let mut i: usize = 0;
    while i < n
        invariant
            n == data@.len(),
            0 <= i <= n,
            orders@.len() == i,
            forall|j: int| 0 <= j < i ==> order_matches(#[trigger] orders@[j], data@[j]),
        decreases n - i,
    {
        orders.push(order_snapshot(&data[i]));
        i = i + 1;
    }
    orders
}

fn contract_snapshots(data: &Vec<VenueContractData>) -> (contracts: Vec<VenueContractSnapshot>)
    ensures
        contracts@.len() == data@.len(),
        forall|i: int| 0 <= i < data@.len() ==> contract_matches(#[trigger] contracts@[i], data@[i]),
{
    let mut contracts: Vec<VenueContractSnapshot> = Vec::new();
    let n = data.len();
    let mut i: usize = 0;
    while i < n
        invariant
            n == data@.len(),
            0 <= i <= n,
            contracts@.len() == i,
            forall|j: int| 0 <= j < i ==> contract_matches(#[trigger] contracts@[j], data@[j]),
        decreases n - i,
    {
        contracts.push(contract_snapshot(&data[i]));
        i = i + 1;
    }
    contracts
}

fn quote_snapshots(data: &Vec<VenueQuoteData>) -> (quotes: Vec<VenueQuoteSnapshotV1>)
    ensures
        quotes@ == data@.map_values(|value: VenueQuoteData| quote_from(value)),
{
    let mut quotes: Vec<VenueQuoteSnapshotV1> = Vec::new();
    let n = data.len();
    let mut i: usize = 0;
    while i < n
        invariant
            n == data@.len(),
            0 <= i <= n,
            quotes@ == data@.take(i as int).map_values(|value: VenueQuoteData| quote_from(value)),
        decreases n - i,
    {
        let value = data[i];
        quotes.push(VenueQuoteSnapshotV1 {
            instrument: value.instrument,
            tradable_instrument_id: value.tradable_instrument_id,
            bid_scaled: value.bid_scaled,
            ask_scaled: value.ask_scaled,
            midpoint_scaled: value.midpoint_scaled,
            price_scale: value.price_scale,
        });
        i = i + 1;
        proof {
            assert(data@.take(i as int) =~= data@.take(i - 1).push(value));
        }
    }
    proof {
        assert(data@.take(n as int) =~= data@);
    }
    quotes
}

fn position_snapshots(data: &Vec<VenuePositionData>) -> (positions: Vec<VenuePositionSnapshotV1>)
    ensures
        positions@ == data@.map_values(|value: VenuePositionData| position_from(value)),
{
    let mut positions: Vec<VenuePositionSnapshotV1> = Vec::new();
    let n = data.len();
    let mut i: usize = 0;
    while i < n
        invariant
            n == data@.len(),
            0 <= i <= n,
            positions@ == data@.take(i as int).map_values(|value: VenuePositionData| position_from(value)),
        decreases n - i,
    {
        let value = data[i];
        positions.push(VenuePositionSnapshotV1 {
            id: value.id,
            instrument: value.instrument,
            side: value.side,
            quantity_micros: value.quantity_micros,
            average_price_nanos: value.average_price_nanos,
            unrealized_pnl_micros: value.unrealized_pnl_micros,
            opened_ms: value.opened_ms,
        });
        i = i + 1;
        proof {
            assert(data@.take(i as int) =~= data@.take(i - 1).push(value));
        }
    }
    proof {
        assert(data@.take(n as int) =~= data@);
    }
    positions
}

fn execution_snapshots(data: &Vec<VenueExecutionData>) -> (executions: Vec<VenueExecutionSnapshotV1>)
    ensures
        executions@ == data@.map_values(|value: VenueExecutionData| execution_from(value)),
{
    let mut executions: Vec<VenueExecutionSnapshotV1> = Vec::new();
    let n = data.len();
    let mut i: usize = 0;
    while i < n
        invariant
            n == data@.len(),
            0 <= i <= n,
            executions@ == data@.take(i as int).map_values(|value: VenueExecutionData| execution_from(value)),
        decreases n - i,
    {
        let value = data[i];
        executions.push(VenueExecutionSnapshotV1 {
            id: value.id,
            order_id: value.order_id,
            position_id: value.position_id,
            instrument: value.instrument,
            side: value.side,
            quantity_micros: value.quantity_micros,
            price_nanos: value.price_nanos,
            created_ms: value.created_ms,
        });
        i = i + 1;
        proof {
            assert(data@.take(i as int) =~= data@.take(i - 1).push(value));
        }
    }
    proof {
        assert(data@.take(n as int) =~= data@);
    }
    executions
}

/// Saturating `i64` addition.
fn saturating_add(a: i64, b: i64) -> (sum: i64)
    ensures
        sum == saturating_add_spec(a, b),
{
    let wide: i128 = a as i128 + b as i128;
    if wide > i64::MAX as i128 {
        i64::MAX
    } else if wide < i64::MIN as i128 {
        i64::MIN
    } else {
        wide as i64
    }
}

impl VenueSnapshot {
    /// A venue with no truth, carrying the reason as its health text.
    pub fn unavailable(availability: Availability, health: String) -> (snapshot: VenueSnapshot)
        ensures
            snapshot.generation == 0,
            snapshot.availability == availability,
            snapshot.as_of_ns == 0,
            snapshot.refresh_started_ns == 0,
            snapshot.config_fingerprint@ == Seq::new(16, |i: int| 0u8),
            snapshot.account is None,
            snapshot.contracts@.len() == 0,
            snapshot.quotes@.len() == 0,
            snapshot.positions@.len() == 0,
            snapshot.open_orders@.len() == 0,
            snapshot.final_orders@.len() == 0,
            snapshot.executions@.len() == 0,
            snapshot.unknown_orders@.len() == 0,
            snapshot.unknown_positions@.len() == 0,
            snapshot.health@ == health@,
    {
        let snapshot = VenueSnapshot {
            generation: 0,
            availability,
            as_of_ns: 0,
            refresh_started_ns: 0,
            config_fingerprint: [0u8; 16],
            account: None,
            contracts: Vec::new(),
            quotes: Vec::new(),
            positions: Vec::new(),
            open_orders: Vec::new(),
            final_orders: Vec::new(),
            executions: Vec::new(),
            unknown_orders: Vec::new(),
            unknown_positions: Vec::new(),
            health,
        };
        proof {
            assert(snapshot.config_fingerprint@ =~= Seq::new(16, |i: int| 0u8));
        }
        snapshot
    }

    /// The live snapshot of one reconciled venue read: every account,
    /// contract, quote, position, order and execution field carried over in
    /// order, the unplaced ids kept, and a health text that counts them.
    pub fn from_epoch(generation: u64, epoch: VenueEpochData) -> (snapshot: VenueSnapshot)
        requires
            epoch.unknown_orders@.len() + epoch.unknown_positions@.len() <= usize::MAX,
        ensures
            snapshot.generation == generation,
            snapshot.availability == Availability::Live,
            snapshot.as_of_ns == epoch.ts_received_ns,
            snapshot.refresh_started_ns == epoch.ts_started_ns,
            snapshot.config_fingerprint == epoch.config_fingerprint,
            snapshot.account matches Some(account) && account_matches(account, epoch.account),
            snapshot.contracts@.len() == epoch.contracts@.len(),
            forall|i: int|
                0 <= i < epoch.contracts@.len() ==> contract_matches(
                    #[trigger] snapshot.contracts@[i],
                    epoch.contracts@[i],
                ),
            snapshot.quotes@ == epoch.quotes@.map_values(|value: VenueQuoteData| quote_from(value)),
            snapshot.positions@ == epoch.positions@.map_values(
                |value: VenuePositionData| position_from(value),
            ),
            orders_match(snapshot.open_orders@, epoch.open_orders@),
            orders_match(snapshot.final_orders@, epoch.final_orders@),
            snapshot.executions@ == epoch.executions@.map_values(
                |value: VenueExecutionData| execution_from(value),
            ),
            snapshot.unknown_orders@ == epoch.unknown_orders@,
            snapshot.unknown_positions@ == epoch.unknown_positions@,
            snapshot.health@ == epoch_health(
                (epoch.unknown_orders@.len() + epoch.unknown_positions@.len()) as nat,
            ),
    {
        let unknown: usize = epoch.unknown_orders.len() + epoch.unknown_positions.len();
        let health = if unknown == 0 {
            "coherent / account truth reconciled".to_owned()
        } else {
            let mut text = "coherent / ".to_owned();
            append_decimal(&mut text, unknown as u64);
            text.append(" unknown venue object(s)");
            text
        };
        let account = account_snapshot(&epoch.account);
        let contracts = contract_snapshots(&epoch.contracts);
        let quotes = quote_snapshots(&epoch.quotes);
        let positions = position_snapshots(&epoch.positions);
        let open_orders = order_snapshots(&epoch.open_orders);
        let final_orders = order_snapshots(&epoch.final_orders);
        let executions = execution_snapshots(&epoch.executions);
        proof {
            reveal_strlit("coherent / account truth reconciled");
            reveal_strlit("coherent / ");
            reveal_strlit(" unknown venue object(s)");
            assert(health@ =~= epoch_health(unknown as nat));
        }
        VenueSnapshot {
            generation,
            availability: Availability::Live,
            as_of_ns: epoch.ts_received_ns,
            refresh_started_ns: epoch.ts_started_ns,
            config_fingerprint: epoch.config_fingerprint,
            account: Some(account),
            contracts,
            quotes,
            positions,
            open_orders,
            final_orders,
            executions,
            unknown_orders: epoch.unknown_orders,
            unknown_positions: epoch.unknown_positions,
            health,
        }
    }

    /// The snapshot that follows this one from a new reconciled read: the
    /// generation advances by one (saturating) and the rest is `from_epoch`.
    pub fn successor(&self, epoch: VenueEpochData) -> (next: VenueSnapshot)
        requires
            epoch.unknown_orders@.len() + epoch.unknown_positions@.len() <= usize::MAX,
        ensures
            next.generation == (if self.generation == u64::MAX {
                u64::MAX
            } else {
                (self.generation + 1) as u64
            }),
            next.availability == Availability::Live,
            next.as_of_ns == epoch.ts_received_ns,
            next.refresh_started_ns == epoch.ts_started_ns,
            next.config_fingerprint == epoch.config_fingerprint,
            next.account matches Some(account) && account_matches(account, epoch.account),
            next.contracts@.len() == epoch.contracts@.len(),
            forall|i: int|
                0 <= i < epoch.contracts@.len() ==> contract_matches(
                    #[trigger] next.contracts@[i],
                    epoch.contracts@[i],
                ),
            next.quotes@ == epoch.quotes@.map_values(|value: VenueQuoteData| quote_from(value)),
            next.positions@ == epoch.positions@.map_values(
                |value: VenuePositionData| position_from(value),
            ),
            orders_match(next.open_orders@, epoch.open_orders@),
            orders_match(next.final_orders@, epoch.final_orders@),
            next.executions@ == epoch.executions@.map_values(
                |value: VenueExecutionData| execution_from(value),
            ),
            next.unknown_orders@ == epoch.unknown_orders@,
            next.unknown_positions@ == epoch.unknown_positions@,
            next.health@ == epoch_health(
                (epoch.unknown_orders@.len() + epoch.unknown_positions@.len()) as nat,
            ),
    {
        let generation = self.generation.saturating_add(1);
        VenueSnapshot::from_epoch(generation, epoch)
    }

    /// The snapshot after a refresh failed: all truth is kept, the health
    /// text is replaced, and a venue that has already published reads
    /// stale while one that never did takes the failure's availability.
    pub fn after_refresh_failure(self, availability: Availability, health: String) -> (next: VenueSnapshot)
        ensures
            next.availability == (if self.generation == 0 {
                availability
            } else {
                Availability::Stale
            }),
            next.health@ == health@,
            next.generation == self.generation,
            next.as_of_ns == self.as_of_ns,
            next.refresh_started_ns == self.refresh_started_ns,
            next.config_fingerprint == self.config_fingerprint,
            next.account == self.account,
            next.contracts == self.contracts,
            next.quotes == self.quotes,
            next.positions == self.positions,
            next.open_orders == self.open_orders,
            next.final_orders == self.final_orders,
            next.executions == self.executions,
            next.unknown_orders == self.unknown_orders,
            next.unknown_positions == self.unknown_positions,
    {
        let mut next = self;
        next.availability = if next.generation == 0 {
            availability
        } else {
            Availability::Stale
        };
        next.health = health;
        next
    }

    /// The first quote of `instrument`, if any.
    pub fn quote(&self, instrument: InstrumentId) -> (found: Option<VenueQuoteSnapshotV1>)
        ensures
            match found {
                Some(quote) => exists|i: int|
                    0 <= i < self.quotes@.len() && self.quotes@[i] == quote && quote.instrument == instrument
                        && forall|j: int| 0 <= j < i ==> (#[trigger] self.quotes@[j]).instrument != instrument,
                None => forall|j: int| 0 <= j < self.quotes@.len() ==> (#[trigger] self.quotes@[j]).instrument != instrument,
            },
    {
        let n = self.quotes.len();
        let mut i: usize = 0;
        while i < n
            invariant
                n == self.quotes@.len(),
                0 <= i <= n,
                forall|j: int| 0 <= j < i ==> (#[trigger] self.quotes@[j]).instrument != instrument,
            decreases n - i,
        {
            if self.quotes[i].instrument == instrument {
                return Some(self.quotes[i]);
            }
            i = i + 1;
        }
        None
    }

    /// Net signed quantity and unrealized P&L of the positions in
    /// `instrument`, saturating at the `i64` range.
    pub fn exposure_for(&self, instrument: InstrumentId) -> (exposure: (i64, i64))
        ensures
            exposure == exposure_prefix(self.positions@, instrument, self.positions@.len()),
    {
        let n = self.positions.len();
        let mut quantity: i64 = 0;
        let mut pnl: i64 = 0;
        let mut i: usize = 0;
        while i < n
            invariant
                n == self.positions@.len(),
                0 <= i <= n,
                (quantity, pnl) == exposure_prefix(self.positions@, instrument, i as nat),
            decreases n - i,
        {
            let position = self.positions[i];
            proof {
                assert(position == self.positions@[i as int]);
            }
            if position.instrument.0 == instrument.0 {
                let signed: i64 = match position.side {
                    VenueSide::Buy => position.quantity_micros,
                    VenueSide::Sell => {
                        if position.quantity_micros == i64::MIN {
                            i64::MIN
                        } else {
                            -position.quantity_micros
                        }
                    },
                    VenueSide::Unknown => 0,
                };
                quantity = saturating_add(quantity, signed);
                pnl = saturating_add(pnl, position.unrealized_pnl_micros);
            }
            i = i + 1;
        }
        (quantity, pnl)
    }
}

} // verus!
