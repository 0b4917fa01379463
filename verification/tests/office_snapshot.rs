use northstar_index_fund::data_plane::JournalSequence;
use northstar_index_fund::operating::ledger::LedgerSnapshot;
use northstar_index_fund::operating::office_snapshot::OfficeSnapshot;
use northstar_index_fund::operating::snapshot::{Availability, DeskSnapshot, DomainSnapshot, OperatingMode};
use northstar_index_fund::operating::venue::VenueSnapshot;
use std::sync::Arc;

fn office() -> OfficeSnapshot<DomainSnapshot> {
    OfficeSnapshot::empty(OperatingMode::LiveData, DomainSnapshot::unavailable(Availability::AwaitingFirstReceipt))
}

#[test]
fn desk_publication_reuses_unchanged_domains() {
    let before = office();
    let after = before.with_desk(Arc::new(DeskSnapshot::awaiting_first_receipt()));
    assert_eq!(after.generation.0, before.generation.0 + 1);
    assert!(Arc::ptr_eq(&before.macro_office, &after.macro_office));
    assert!(Arc::ptr_eq(&before.fund, &after.fund));
    assert!(Arc::ptr_eq(&before.systems, &after.systems));
    assert!(Arc::ptr_eq(&before.ledger, &after.ledger));
    assert!(!Arc::ptr_eq(&before.desk, &after.desk));
}

#[test]
fn empty_office_is_honest_about_missing_domains() {
    let office = office();
    assert_eq!(office.generation.0, 0);
    assert_eq!(office.desk.availability, Availability::AwaitingFirstReceipt);
    assert_eq!(office.venue.availability, Availability::NotConfigured);
    assert_eq!(office.venue.health, "TradeLocker protected configuration is absent");
    assert_eq!(office.fund.availability, Availability::NotConfigured);
    assert_eq!(office.systems.availability, Availability::AwaitingFirstReceipt);
    assert_eq!(office.ledger.health, "Ledger store is not attached");
}

#[test]
fn venue_publication_derives_fund_and_systems() {
    let mut venue = VenueSnapshot::unavailable(Availability::Live, "ok".to_string());
    venue.generation = 4;
    venue.as_of_ns = 99;
    let mut ledger = LedgerSnapshot::awaiting_store();
    ledger.last_sequence = JournalSequence(12);
    let office = office().with_venue(Arc::new(venue.clone()));
    assert_eq!(office.fund.generation, 4);
    assert_eq!(office.fund.as_of_ns, 99);
    assert_eq!(office.fund.last_sequence, JournalSequence(0));
    assert_eq!(office.systems.availability, Availability::Live);
    let both = office.with_venue_and_ledger(Arc::new(venue), Arc::new(ledger));
    assert_eq!(both.generation.0, 2);
    assert_eq!(both.fund.last_sequence, JournalSequence(12));
    assert_eq!(both.ledger.last_sequence, JournalSequence(12));
}

#[test]
fn unavailable_desk_reports_its_source_state() {
    let desk = northstar_index_fund::operating::snapshot::DeskSnapshot::unavailable(
        northstar_index_fund::operating::snapshot::Availability::NotConfigured,
    );
    assert_eq!(desk.generation, 0);
    assert_eq!(desk.availability, northstar_index_fund::operating::snapshot::Availability::NotConfigured);
    assert!(desk.instruments.is_empty());
}

#[test]
fn empty_production_runtime_is_honest_and_contains_no_demo_values() {
    let snapshot = OfficeSnapshot::awaiting_first_receipt(OperatingMode::LiveData);
    assert_eq!(snapshot.mode, OperatingMode::LiveData);
    assert!(snapshot.desk.instruments.is_empty());
    assert_eq!(snapshot.desk.availability, Availability::AwaitingFirstReceipt);
    assert_eq!(snapshot.fund.availability, Availability::NotConfigured);
    assert_eq!(snapshot.macro_office.availability, Availability::AwaitingFirstReceipt);
    assert!(!snapshot.venue.availability.has_value());
    assert!(!snapshot.ledger.availability.has_value());
}
