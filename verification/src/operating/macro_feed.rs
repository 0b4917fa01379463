//! Status of one official macro feed as the office shows it.

use crate::data_plane::{SourceId, StreamId};
use vstd::prelude::*;

verus! {

/// Where a macro feed stands.
#[derive(Clone, Copy, Debug, PartialEq, Eq, Structural)]
pub enum MacroFeedState {
    Awaiting,
    Current,
    NotConfigured,
    Rejected,
}

/// One feed's state, the reason behind it and when it is retried.
#[derive(Clone, Debug)]
pub struct MacroFeedSnapshot {
    pub source: SourceId,
    pub stream: StreamId,
    pub state: MacroFeedState,
    pub detail: String,
    pub next_retry_ns: i64,
}

} // verus!
