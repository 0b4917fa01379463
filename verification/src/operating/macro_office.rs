//! Futures positioning points of the macro office.

use super::market::projector::TimeQuality;
use crate::data_plane::{JournalSequence, ParticipantClass, ReceiptId};
use vstd::prelude::*;

verus! {

/// One weekly positioning report of one trader class.
#[derive(Clone, Copy, Debug, PartialEq, Eq, Structural)]
pub struct PositioningPointSnapshot {
    pub report_date_ns: i64,
    pub received_ns: i64,
    pub effective_ns: i64,
    pub sequence: JournalSequence,
    pub receipt_id: ReceiptId,
    pub participant: ParticipantClass,
    pub long: i64,
    pub short: i64,
    pub spread: i64,
    pub open_interest: i64,
    pub corrected: bool,
    pub time_quality: TimeQuality,
}

impl PositioningPointSnapshot {
    /// Net position: long minus short.
    pub fn net(self) -> (net: i64)
        requires
            i64::MIN <= self.long - self.short <= i64::MAX,
        ensures
            net == self.long - self.short,
    {
        self.long - self.short
    }
}

} // verus!
