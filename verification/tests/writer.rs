use northstar_index_fund::operating::snapshot::{Availability, DomainMask, OfficeGeneration, SnapshotNotice};
use northstar_index_fund::operating::writer::{writer_step, DeskOutcome, WriterAction, WriterEvent};

#[test]
fn ledger_publishes_only_after_a_durable_commit() {
    assert_eq!(writer_step(3, WriterEvent::LedgerAppend(Some(true))), (3, WriterAction::PublishLedger));
    assert_eq!(writer_step(3, WriterEvent::LedgerAppend(Some(false))), (3, WriterAction::Nothing));
    assert_eq!(writer_step(3, WriterEvent::LedgerAppend(None)), (3, WriterAction::PublishLedgerInvalid));
}

#[test]
fn desk_refresh_outcomes_remain_explicit_states() {
    assert_eq!(
        writer_step(0, WriterEvent::DeskRefresh(DeskOutcome::NoPlane)),
        (0, WriterAction::PublishDeskUnavailable(Availability::NotConfigured))
    );
    assert_eq!(writer_step(0, WriterEvent::DeskRefresh(DeskOutcome::Published)), (0, WriterAction::PublishDeskReport));
    assert_eq!(writer_step(0, WriterEvent::DeskRefresh(DeskOutcome::DuplicateSourceEvent)), (0, WriterAction::Nothing));
    assert_eq!(
        writer_step(0, WriterEvent::DeskRefresh(DeskOutcome::NotEntitled)),
        (0, WriterAction::PublishDeskStatus(Availability::NotEntitled))
    );
    assert_eq!(
        writer_step(0, WriterEvent::DeskRefresh(DeskOutcome::RateLimited)),
        (0, WriterAction::PublishDeskStatus(Availability::Stale))
    );
    assert_eq!(
        writer_step(0, WriterEvent::DeskRefresh(DeskOutcome::Rejected)),
        (0, WriterAction::PublishDeskStatus(Availability::Invalid))
    );
    assert_eq!(
        writer_step(0, WriterEvent::DeskFailure { has_plane: false, availability: Availability::Disconnected }),
        (0, WriterAction::PublishDeskUnavailable(Availability::Disconnected))
    );
    assert_eq!(
        writer_step(0, WriterEvent::DeskFailure { has_plane: true, availability: Availability::Stale }),
        (0, WriterAction::PublishDeskStatus(Availability::Stale))
    );
}

#[test]
fn venue_epoch_is_all_or_nothing() {
    assert_eq!(writer_step(4, WriterEvent::VenueEpoch { appended_all: true }), (5, WriterAction::PublishVenueAndLedger));
    assert_eq!(writer_step(4, WriterEvent::VenueEpoch { appended_all: false }), (4, WriterAction::PublishLedgerInvalid));
    assert_eq!(
        writer_step(u64::MAX, WriterEvent::VenueEpoch { appended_all: true }),
        (u64::MAX, WriterAction::PublishVenueAndLedger)
    );
}

#[test]
fn venue_failure_reads_stale_once_published() {
    assert_eq!(
        writer_step(0, WriterEvent::VenueFailure(Availability::Disconnected)),
        (0, WriterAction::PublishVenue(Availability::Disconnected))
    );
    assert_eq!(
        writer_step(2, WriterEvent::VenueFailure(Availability::Disconnected)),
        (2, WriterAction::PublishVenue(Availability::Stale))
    );
}

#[test]
fn pending_domains_become_one_notice() {
    assert_eq!(SnapshotNotice::from_pending(0, OfficeGeneration(4)), None);
    assert_eq!(SnapshotNotice::from_pending(0xC0, OfficeGeneration(4)), None);
    let changed = DomainMask::desk().union(DomainMask::ledger());
    let notice = SnapshotNotice::from_pending(changed.bits(), OfficeGeneration(7)).expect("notice");
    assert_eq!(notice.generation, OfficeGeneration(7));
    assert_eq!(notice.changed, changed);
}

#[test]
fn domain_masks_round_trip_through_their_bits() {
    let mask = DomainMask::venue().union(DomainMask::fund()).union(DomainMask::systems());
    assert_eq!(DomainMask::from_bits_truncate(mask.bits()), mask);
    assert_eq!(DomainMask::from_bits_truncate(0xFF).bits(), 0x3F);
    let once = DomainMask::from_bits_truncate(0xA5);
    assert_eq!(DomainMask::from_bits_truncate(once.bits()), once);
}
