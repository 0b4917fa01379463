//! One reconciled read of the venue account, in the venue's own terms.

use crate::data_plane::InstrumentId;
use vstd::prelude::*;

verus! {

/// Side of a venue position, order or execution.
#[derive(Clone, Copy, Debug, PartialEq, Eq, Structural)]
pub enum VenueSide {
    Buy,
    Sell,
    Unknown,
}

/// The venue account as read.
#[derive(Clone, Debug)]
pub struct VenueAccountData {
    pub account_id: u64,
    pub acc_num: u64,
    pub name: String,
    pub currency: String,
    pub balance_micros: i64,
    pub projected_balance_micros: i64,
    pub available_funds_micros: i64,
    pub today_net_micros: i64,
    pub today_fees_micros: i64,
    pub open_net_pnl_micros: i64,
}

/// A tradable contract as read, with the venue's own symbol.
#[derive(Clone, Debug)]
pub struct VenueContractData {
    pub instrument: InstrumentId,
    pub provider_symbol: String,
    pub tradable_instrument_id: u64,
    pub info_route_id: u32,
    pub trade_route_id: u32,
    pub session_id: u32,
    pub minimum_quantity_micros: i64,
    pub quantity_step_micros: i64,
    pub price_tick_nanos: i64,
    pub price_precision: u16,
    pub session_open: bool,
}

/// A quote as read.
#[derive(Clone, Copy, Debug, PartialEq, Eq, Structural)]
pub struct VenueQuoteData {
    pub instrument: InstrumentId,
    pub tradable_instrument_id: u64,
    pub bid_scaled: i64,
    pub ask_scaled: i64,
    pub midpoint_scaled: i64,
    pub price_scale: i64,
}

/// A position as read.
#[derive(Clone, Copy, Debug, PartialEq, Eq, Structural)]
pub struct VenuePositionData {
    pub id: u64,
    pub instrument: InstrumentId,
    pub side: VenueSide,
    pub quantity_micros: i64,
    pub average_price_nanos: i64,
    pub unrealized_pnl_micros: i64,
    pub opened_ms: i64,
}

/// An order as read.
#[derive(Clone, Debug)]
pub struct VenueOrderData {
    pub id: u64,
    pub position_id: u64,
    pub instrument: InstrumentId,
    pub side: VenueSide,
    pub order_type: String,
    pub status: String,
    pub quantity_micros: i64,
    pub filled_quantity_micros: i64,
    pub average_price_nanos: i64,
    pub created_ms: i64,
    pub is_open: bool,
}

/// An execution as read.
#[derive(Clone, Copy, Debug, PartialEq, Eq, Structural)]
pub struct VenueExecutionData {
    pub id: u64,
    pub order_id: u64,
    pub position_id: u64,
    pub instrument: InstrumentId,
    pub side: VenueSide,
    pub quantity_micros: i64,
    pub price_nanos: i64,
    pub created_ms: i64,
}

/// Everything one venue read produced, with the ids of orders and positions
/// the venue reported but the catalog could not place.
#[derive(Clone, Debug)]
pub struct VenueEpochData {
    pub ts_started_ns: i64,
    pub ts_received_ns: i64,
    pub config_fingerprint: [u8; 16],
    pub account: VenueAccountData,
    pub contracts: Vec<VenueContractData>,
    pub quotes: Vec<VenueQuoteData>,
    pub positions: Vec<VenuePositionData>,
    pub open_orders: Vec<VenueOrderData>,
    pub final_orders: Vec<VenueOrderData>,
    pub executions: Vec<VenueExecutionData>,
    pub unknown_orders: Vec<u64>,
    pub unknown_positions: Vec<u64>,
}

/// A governed index bound to the venue's own symbol and price scale.
#[derive(Clone, Debug)]
pub struct TradeLockerBinding {
    pub instrument: InstrumentId,
    pub provider_symbol: String,
    pub price_scale: i64,
}

} // verus!
