//! Labels and combined states the operating pages show, kept free of any
//! drawing so that every page reads them the same way.

use super::market::projector::TimeQuality;
use super::snapshot::{has_value_spec, Availability, OperatingMode};
use crate::data_plane::InstrumentId;
use vstd::prelude::*;

verus! {

/// Ticker label of a governed index; unknown identities read `UNASSIGNED`.
pub open spec fn instrument_label_spec(instrument: InstrumentId) -> Seq<char> {
    if instrument.0 == 1 {
        "US100"@
    } else if instrument.0 == 2 {
        "US500"@
    } else if instrument.0 == 3 {
        "US30"@
    } else if instrument.0 == 4 {
        "DE40"@
    } else if instrument.0 == 5 {
        "UK100"@
    } else if instrument.0 == 6 {
        "JP225"@
    } else {
        "UNASSIGNED"@
    }
}

/// Ticker label of a governed index.
pub fn instrument_label(instrument: InstrumentId) -> (label: &'static str)
    ensures
        label@ == instrument_label_spec(instrument),
{
    if instrument.0 == 1 {
        "US100"
    } else if instrument.0 == 2 {
        "US500"
    } else if instrument.0 == 3 {
        "US30"
    } else if instrument.0 == 4 {
        "DE40"
    } else if instrument.0 == 5 {
        "UK100"
    } else if instrument.0 == 6 {
        "JP225"
    } else {
        "UNASSIGNED"
    }
}

/// The state of a row fed by two sources: ready when both carry values,
/// invalid when either is invalid or disconnected, and otherwise still
/// awaiting its first receipt.
pub open spec fn combined_state_spec(left: Availability, right: Availability) -> Availability {
    if has_value_spec(left) && has_value_spec(right) {
        Availability::Ready
    } else if left == Availability::Invalid || left == Availability::Disconnected || right == Availability::Invalid
        || right == Availability::Disconnected {
        Availability::Invalid
    } else {
        Availability::AwaitingFirstReceipt
    }
}

/// The state of a row fed by two sources.
pub fn combined_state(left: Availability, right: Availability) -> (state: Availability)
    ensures
        state == combined_state_spec(left, right),
{
    if left.has_value() && right.has_value() {
        Availability::Ready
    } else if matches!(left, Availability::Invalid | Availability::Disconnected) || matches!(
        right,
        Availability::Invalid | Availability::Disconnected
    ) {
        Availability::Invalid
    } else {
        Availability::AwaitingFirstReceipt
    }
}

/// How replay is described in each operating mode.
pub open spec fn replay_label_spec(mode: OperatingMode) -> Seq<char> {
    match mode {
        OperatingMode::OfflineReplay => "exact / offline"@,
        OperatingMode::LiveData => "live journal"@,
        OperatingMode::Paper => "paper / journaled"@,
        OperatingMode::Live => "live / journaled"@,
    }
}

/// How replay is described in an operating mode.
pub fn replay_label(mode: OperatingMode) -> (label: String)
    ensures
        label@ == replay_label_spec(mode),
{
    let text = match mode {
        OperatingMode::OfflineReplay => "exact / offline",
        OperatingMode::LiveData => "live journal",
        OperatingMode::Paper => "paper / journaled",
        OperatingMode::Live => "live / journaled",
    };
    text.to_owned()
}

/// Offline replay reads as replaying; every journaled mode is ready.
pub fn replay_state(mode: OperatingMode) -> (state: Availability)
    ensures
        state == (if mode == OperatingMode::OfflineReplay {
            Availability::Replaying
        } else {
            Availability::Ready
        }),
{
    match mode {
        OperatingMode::OfflineReplay => Availability::Replaying,
        _ => Availability::Ready,
    }
}

/// What a time quality says of an observation's time.
pub open spec fn time_quality_label_spec(quality: TimeQuality) -> Seq<char> {
    match quality {
        TimeQuality::ObservedLive => "observed live / receipt effective"@,
        TimeQuality::VerifiedPublication => "verified publication time"@,
        TimeQuality::EstimatedHistorical => "estimated historical time"@,
        TimeQuality::Unknown => "unknown time quality"@,
        TimeQuality::ProviderDelayed => "provider-delayed observation"@,
    }
}

/// What a time quality says of an observation's time.
pub fn time_quality_label(quality: TimeQuality) -> (label: &'static str)
    ensures
        label@ == time_quality_label_spec(quality),
{
    match quality {
        TimeQuality::ObservedLive => "observed live / receipt effective",
        TimeQuality::VerifiedPublication => "verified publication time",
        TimeQuality::EstimatedHistorical => "estimated historical time",
        TimeQuality::Unknown => "unknown time quality",
        TimeQuality::ProviderDelayed => "provider-delayed observation",
    }
}

} // verus!
