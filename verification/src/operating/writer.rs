//! The single state writer's decisions: for each event it receives, what it
//! publishes and which venue generation it keeps. The writer itself performs
//! the appends, refreshes and publications; this module decides.

use super::snapshot::Availability;
use vstd::prelude::*;

verus! {

/// How a Desk refresh ended.
#[derive(Clone, Copy, Debug, PartialEq, Eq, Structural)]
pub enum DeskOutcome {
    /// No market plane is configured.
    NoPlane,
    /// The refresh was committed and produced a Desk snapshot.
    Published,
    /// The journal already held the refresh's source events.
    DuplicateSourceEvent,
    /// The provider refused the entitlement.
    NotEntitled,
    /// The provider rate-limited the refresh.
    RateLimited,
    /// Any other failure.
    Rejected,
}

/// What the writer receives.
#[derive(Clone, Copy, Debug, PartialEq, Eq, Structural)]
pub enum WriterEvent {
    /// An operator or automatic Ledger append: `Some(true)` committed a new
    /// entry, `Some(false)` found it already committed, `None` failed.
    LedgerAppend(Option<bool>),
    /// A Desk refresh ended.
    DeskRefresh(DeskOutcome),
    /// A Desk source failed with this availability; `has_plane` tells
    /// whether a market plane can report its own status.
    DeskFailure { has_plane: bool, availability: Availability },
    /// A reconciled venue epoch arrived; `appended_all` tells whether every
    /// Ledger event it implies was appended.
    VenueEpoch { appended_all: bool },
    /// A venue refresh failed with this availability.
    VenueFailure(Availability),
}

/// What the writer publishes.
#[derive(Clone, Copy, Debug, PartialEq, Eq, Structural)]
pub enum WriterAction {
    /// Nothing changed.
    Nothing,
    /// The Ledger projection after a durable commit.
    PublishLedger,
    /// The Ledger projection marked invalid, with the failure as health.
    PublishLedgerInvalid,
    /// The Desk snapshot the refresh produced.
    PublishDeskReport,
    /// The market plane's current Desk with this availability.
    PublishDeskStatus(Availability),
    /// An empty Desk with this availability.
    PublishDeskUnavailable(Availability),
    /// The new venue snapshot together with the Ledger it reconciled into.
    PublishVenueAndLedger,
    /// The kept venue truth with this availability and the failure as health.
    PublishVenue(Availability),
}

/// The writer's decision: the venue generation it keeps and what it
/// publishes.
/// - A committed append publishes the Ledger; a duplicate publishes nothing;
///   a failed append publishes the Ledger marked invalid.
/// - A Desk refresh without a plane publishes an empty Desk not configured; a
///   committed refresh publishes its Desk; a duplicate publishes nothing; an
///   entitlement refusal reads not entitled, a rate limit stale, and any
///   other failure invalid.
/// - A Desk failure publishes the plane's Desk, or an empty one, with the
///   failure's availability.
/// - A venue epoch is all or nothing: when every Ledger event was appended
///   the venue advances one generation (saturating) and publishes with the
///   Ledger; otherwise the venue stays and the Ledger reads invalid.
/// - A venue failure keeps the venue, which reads stale once it has a
///   generation and takes the failure's availability before.
pub open spec fn writer_step_spec(venue_generation: u64, event: WriterEvent) -> (u64, WriterAction) {
    match event {
        WriterEvent::LedgerAppend(appended) => (
            venue_generation,
            match appended {
                Some(true) => WriterAction::PublishLedger,
                Some(false) => WriterAction::Nothing,
                None => WriterAction::PublishLedgerInvalid,
            },
        ),
        WriterEvent::DeskRefresh(outcome) => (
            venue_generation,
            match outcome {
                DeskOutcome::NoPlane => WriterAction::PublishDeskUnavailable(Availability::NotConfigured),
                DeskOutcome::Published => WriterAction::PublishDeskReport,
                DeskOutcome::DuplicateSourceEvent => WriterAction::Nothing,
                DeskOutcome::NotEntitled => WriterAction::PublishDeskStatus(Availability::NotEntitled),
                DeskOutcome::RateLimited => WriterAction::PublishDeskStatus(Availability::Stale),
                DeskOutcome::Rejected => WriterAction::PublishDeskStatus(Availability::Invalid),
            },
        ),
        WriterEvent::DeskFailure { has_plane, availability } => (
            venue_generation,
            if has_plane {
                WriterAction::PublishDeskStatus(availability)
            } else {
                WriterAction::PublishDeskUnavailable(availability)
            },
        ),
        WriterEvent::VenueEpoch { appended_all } => if appended_all {
            (
                if venue_generation == u64::MAX {
                    u64::MAX
                } else {
                    (venue_generation + 1) as u64
                },
                WriterAction::PublishVenueAndLedger,
            )
        } else {
            (venue_generation, WriterAction::PublishLedgerInvalid)
        },
        WriterEvent::VenueFailure(availability) => (
            venue_generation,
            WriterAction::PublishVenue(
                if venue_generation == 0 {
                    availability
                } else {
                    Availability::Stale
                },
            ),
        ),
    }
}

/// One decision of the state writer.
pub fn writer_step(venue_generation: u64, event: WriterEvent) -> (r: (u64, WriterAction))
    ensures
        r == writer_step_spec(venue_generation, event),
{
    match event {
        WriterEvent::LedgerAppend(appended) => {
            let action = match appended {
                Some(true) => WriterAction::PublishLedger,
                Some(false) => WriterAction::Nothing,
                None => WriterAction::PublishLedgerInvalid,
            };
            (venue_generation, action)
        },
        WriterEvent::DeskRefresh(outcome) => {
            let action = match outcome {
                DeskOutcome::NoPlane => WriterAction::PublishDeskUnavailable(Availability::NotConfigured),
                DeskOutcome::Published => WriterAction::PublishDeskReport,
                DeskOutcome::DuplicateSourceEvent => WriterAction::Nothing,
                DeskOutcome::NotEntitled => WriterAction::PublishDeskStatus(Availability::NotEntitled),
                DeskOutcome::RateLimited => WriterAction::PublishDeskStatus(Availability::Stale),
                DeskOutcome::Rejected => WriterAction::PublishDeskStatus(Availability::Invalid),
            };
            (venue_generation, action)
        },
        WriterEvent::DeskFailure { has_plane, availability } => {
            if has_plane {
                (venue_generation, WriterAction::PublishDeskStatus(availability))
            } else {
                (venue_generation, WriterAction::PublishDeskUnavailable(availability))
            }
        },
        WriterEvent::VenueEpoch { appended_all } => {
            if appended_all {
                (venue_generation.saturating_add(1), WriterAction::PublishVenueAndLedger)
            } else {
                (venue_generation, WriterAction::PublishLedgerInvalid)
            }
        },
        WriterEvent::VenueFailure(availability) => {
            let shown = if venue_generation == 0 {
                availability
            } else {
                Availability::Stale
            };
            (venue_generation, WriterAction::PublishVenue(shown))
        },
    }
}

} // verus!
