//! Production-facing state derived from the canonical journal: snapshots the
//! office publishes, desk market timelines and the Ledger command rules.

pub mod chart_timeline;
pub mod ledger;
pub mod ledger_commands;
pub mod macro_feed;
pub mod macro_material;
pub mod macro_office;
pub mod market;
pub mod massive_market;
pub mod office_snapshot;
pub mod operator_ledger;
pub mod presentation;
pub mod tradelocker_source;
pub mod snapshot;
pub mod venue;
pub mod venue_ledger;
pub mod writer;
