//! Logical chart time: a series is laid out on slots of its timeframe from
//! its first bar, so a missing bar leaves an empty slot instead of pulling
//! the later bars forward.

use super::market::{insertion_point, lemma_position, lemma_position_bounds, opens_increasing};
use super::snapshot::BarSeriesSnapshot;
use crate::data_plane::{CanonicalBar, Timeframe, duration_spec};
use vstd::prelude::*;

verus! {

/// Slots of a series' timeframe, counted from its first bar.
#[derive(Clone, Copy, Debug, PartialEq, Eq, Structural)]
pub struct CanonicalTimeline {
    pub first_open_ns: i64,
    pub duration_ns: i64,
    pub slots: usize,
}

/// The timeline of `bars` in `timeframe`: from the first open, one slot per
/// bar duration up to the last open, when the span fits.
pub open spec fn timeline_of(bars: Seq<CanonicalBar>, timeframe: Timeframe) -> Option<CanonicalTimeline> {
    if bars.len() == 0 {
        None
    } else {
        let span = bars.last().ts_open_ns - bars[0].ts_open_ns;
        let slots = span / (duration_spec(timeframe) as int) + 1;
        if span < 0 || span > i64::MAX || slots > usize::MAX {
            None
        } else {
            Some(
                CanonicalTimeline {
                    first_open_ns: bars[0].ts_open_ns,
                    duration_ns: duration_spec(timeframe),
                    slots: slots as usize,
                },
            )
        }
    }
}

/// Slot of a bar: whole durations since the first open, or zero for a bar
/// before the first open or beyond the slot range.
pub open spec fn logical_slot_spec(timeline: CanonicalTimeline, bar: CanonicalBar) -> usize {
    let offset = bar.ts_open_ns - timeline.first_open_ns;
    if offset < 0 || offset > i64::MAX {
        0
    } else if offset / (timeline.duration_ns as int) > usize::MAX {
        0
    } else {
        (offset / (timeline.duration_ns as int)) as usize
    }
}

/// Open time of a slot, or `i64::MAX` when it does not fit.
pub open spec fn slot_time_spec(timeline: CanonicalTimeline, slot: usize) -> i64 {
    let time = timeline.first_open_ns + slot * timeline.duration_ns;
    if slot > i64::MAX || slot * timeline.duration_ns > i64::MAX || slot * timeline.duration_ns < i64::MIN
        || time > i64::MAX || time < i64::MIN {
        i64::MAX
    } else {
        time as i64
    }
}

/// `index` separates the bars opening before `timestamp_ns` from those at or
/// after it, as far as its neighbours show.
pub open spec fn bound_at(bars: Seq<CanonicalBar>, timestamp_ns: i64, index: int) -> bool {
    &&& 0 <= index <= bars.len()
    &&& index == 0 || bars[index - 1].ts_open_ns < timestamp_ns
    &&& index == bars.len() || bars[index].ts_open_ns >= timestamp_ns
}

/// In increasing opens a separating index is the insertion point.
pub proof fn lemma_bound_is_insertion_point(bars: Seq<CanonicalBar>, timestamp_ns: i64, index: int)
    requires
        opens_increasing(bars),
        bound_at(bars, timestamp_ns, index),
    ensures
        index == insertion_point(bars, timestamp_ns),
{
    assert forall|j: int| 0 <= j < index implies #[trigger] bars[j].ts_open_ns < timestamp_ns by {
        if j < index - 1 {
            assert(bars[j].ts_open_ns < bars[index - 1].ts_open_ns);
        }
    }
    lemma_position(bars, timestamp_ns, 0, index);
}

/// First index whose bar opens at or after `timestamp_ns`, by binary search.
pub fn lower_bound(series: &BarSeriesSnapshot, timestamp_ns: i64) -> (index: usize)
    requires
        series.wf(),
    ensures
        bound_at(series.bars_spec(), timestamp_ns, index as int),
{
    let mut left: usize = 0;
    let mut right: usize = series.len;
    while left < right
        invariant
            series.wf(),
            right == series.len || series.bars_spec()[right as int].ts_open_ns >= timestamp_ns,
            left == 0 || series.bars_spec()[left - 1].ts_open_ns < timestamp_ns,
            0 <= left <= right <= series.len,
            series.len == series.bars_spec().len(),
        decreases right - left,
    {
        let middle = left + (right - left) / 2;
        let bar = match series.get(middle) {
            Some(bar) => bar,
            None => {
                return left;
            },
        };
        if bar.ts_open_ns < timestamp_ns {
            left = middle + 1;
        } else {
            right = middle;
        }
    }
    left
}

impl CanonicalTimeline {
    /// The timeline of `series` when it is in `timeframe`, holds a bar and
    /// its span fits.
    pub fn new(series: &BarSeriesSnapshot, timeframe: Timeframe) -> (timeline: Option<CanonicalTimeline>)
        requires
            series.wf(),
        ensures
            timeline == if series.timeframe == timeframe {
                timeline_of(series.bars_spec(), timeframe)
            } else {
                None
            },
    {
        if series.timeframe != timeframe {
            return None;
        }
        let first = match series.get(0) {
            Some(first) => first,
            None => {
                return None;
            },
        };
        let last = match series.last() {
            Some(last) => last,
            None => {
                return None;
            },
        };
        let duration_ns = timeframe.duration_ns();
        let span_ns = match last.ts_open_ns.checked_sub(first.ts_open_ns) {
            Some(span) => span,
            None => {
                return None;
            },
        };
        if span_ns < 0 {
            return None;
        }
        let steps = (span_ns / duration_ns) as u64;
        if steps >= usize::MAX as u64 {
            return None;
        }
        Some(CanonicalTimeline { first_open_ns: first.ts_open_ns, duration_ns, slots: steps as usize + 1 })
    }

    /// Slot of `bar` in this timeline.
    pub fn logical_slot(self, bar: &CanonicalBar) -> (slot: usize)
        requires
            self.duration_ns > 0,
        ensures
            slot == logical_slot_spec(self, *bar),
    {
        let offset = match bar.ts_open_ns.checked_sub(self.first_open_ns) {
            Some(offset) => offset,
            None => {
                return 0;
            },
        };
        if offset < 0 {
            return 0;
        }
        let quotient = (offset / self.duration_ns) as u64;
        if quotient > usize::MAX as u64 {
            0
        } else {
            quotient as usize
        }
    }

    /// Open time of `slot`.
    pub fn slot_time(self, slot: usize) -> (time: i64)
        ensures
            time == slot_time_spec(self, slot),
    {
        if slot as u64 > i64::MAX as u64 {
            return i64::MAX;
        }
        let steps = slot as i64;
        match steps.checked_mul(self.duration_ns) {
            None => i64::MAX,
            Some(offset) => match self.first_open_ns.checked_add(offset) {
                None => i64::MAX,
                Some(time) => time,
            },
        }
    }

    /// Indices of the bars opening in the slots `start..end`.
    pub fn bar_range(self, series: &BarSeriesSnapshot, start: usize, end: usize) -> (range: (usize, usize))
        requires
            series.wf(),
        ensures
            bound_at(series.bars_spec(), slot_time_spec(self, start), range.0 as int),
            bound_at(series.bars_spec(), slot_time_spec(self, end), range.1 as int),
    {
        let start_ns = self.slot_time(start);
        let end_ns = self.slot_time(end);
        (lower_bound(series, start_ns), lower_bound(series, end_ns))
    }

    /// The bar opening exactly at `slot`, if any; a missing bar leaves the
    /// slot empty.
    pub fn bar_at_slot<'a>(self, series: &'a BarSeriesSnapshot, slot: usize) -> (bar: Option<&'a CanonicalBar>)
        requires
            series.wf(),
        ensures
            match bar {
                Some(found) => exists|i: int|
                    0 <= i < series.bars_spec().len() && series.bars_spec()[i] == *found && found.ts_open_ns
                        == slot_time_spec(self, slot),
                None => opens_increasing(series.bars_spec()) ==> forall|i: int|
                    0 <= i < series.bars_spec().len() ==> #[trigger] series.bars_spec()[i].ts_open_ns != slot_time_spec(
                        self,
                        slot,
                    ),
            },
    {
        let timestamp = self.slot_time(slot);
        let index = lower_bound(series, timestamp);
        let ghost bars = series.bars_spec();
        match series.get(index) {
            Some(found) => {
                if found.ts_open_ns == timestamp {
                    Some(found)
                } else {
                    proof {
                        if opens_increasing(bars) {
                            assert forall|i: int| 0 <= i < bars.len() implies #[trigger] bars[i].ts_open_ns != timestamp by {
                                if i < index {
                                    if i < index - 1 {
                                        assert(bars[i].ts_open_ns < bars[index - 1].ts_open_ns);
                                    }
                                } else if i > index {
                                    assert(bars[index as int].ts_open_ns < bars[i].ts_open_ns);
                                }
                            }
                        }
                    }
                    None
                }
            },
            None => {
                proof {
                    if opens_increasing(bars) {
                        assert forall|i: int| 0 <= i < bars.len() implies #[trigger] bars[i].ts_open_ns != timestamp by {
                            if i < index - 1 {
                                assert(bars[i].ts_open_ns < bars[index - 1].ts_open_ns);
                            }
                        }
                    }
                }
                None
            },
        }
    }
}

} // verus!
