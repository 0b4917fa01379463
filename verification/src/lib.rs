//! Northstar index office: deterministic structural market state, canonical
//! bar timelines, office snapshot composition and the typed Ledger command
//! rules, with their contracts proved by Verus.

pub mod civil_time;
pub mod contracts;
pub mod data_plane;
pub mod digest;
pub mod ledger;
pub mod office;
pub mod market_state;
pub mod operating;
pub mod operating_page;
pub mod text;

use vstd::prelude::*;

verus! {

} // verus!
