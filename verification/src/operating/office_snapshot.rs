//! The office snapshot: one immutable value per published generation,
//! assembled from the domain snapshots. A publication replaces the domains
//! it changes and shares every other one with the previous generation.

use super::ledger::LedgerSnapshot;
use super::snapshot::{has_value_spec, Availability, DeskSnapshot, DomainSnapshot, OfficeGeneration, OperatingMode};
use super::venue::VenueSnapshot;
use crate::data_plane::JournalSequence;
use std::sync::Arc;
use vstd::prelude::*;

verus! {

/// The office at one generation; `M` is the macro office's snapshot.
#[derive(Clone, Debug)]
pub struct OfficeSnapshot<M> {
    pub generation: OfficeGeneration,
    pub mode: OperatingMode,
    pub desk: Arc<DeskSnapshot>,
    pub macro_office: Arc<M>,
    pub venue: Arc<VenueSnapshot>,
    pub fund: Arc<DomainSnapshot>,
    pub systems: Arc<DomainSnapshot>,
    pub ledger: Arc<LedgerSnapshot>,
}

/// The next generation, saturating.
pub open spec fn next_generation_spec(generation: OfficeGeneration) -> OfficeGeneration {
    if generation.0 == u64::MAX {
        generation
    } else {
        OfficeGeneration((generation.0 + 1) as u64)
    }
}

/// The fund and systems summary a venue publication derives.
pub open spec fn venue_domain(venue: VenueSnapshot, last_sequence: JournalSequence) -> DomainSnapshot {
    DomainSnapshot {
        generation: venue.generation,
        as_of_ns: venue.as_of_ns,
        last_sequence,
        availability: venue.availability,
    }
}

impl<M> OfficeSnapshot<M> {
    /// The office before anything is published: nothing received, no venue
    /// configuration, no ledger store.
    pub fn empty(mode: OperatingMode, macro_office: M) -> (office: OfficeSnapshot<M>)
        ensures
            office.generation.0 == 0,
            office.mode == mode,
            *office.macro_office == macro_office,
            office.desk.availability == Availability::AwaitingFirstReceipt,
            office.desk.instruments@.len() == 0,
            office.venue.availability == Availability::NotConfigured,
            office.venue.health@ == "TradeLocker protected configuration is absent"@,
            office.venue.account is None,
            *office.fund == (DomainSnapshot {
                generation: 0,
                as_of_ns: 0,
                last_sequence: JournalSequence(0),
                availability: Availability::NotConfigured,
            }),
            *office.systems == (DomainSnapshot {
                generation: 0,
                as_of_ns: 0,
                last_sequence: JournalSequence(0),
                availability: Availability::AwaitingFirstReceipt,
            }),
            office.ledger.availability == Availability::AwaitingFirstReceipt,
            office.ledger.entry_count == 0,
    {
        OfficeSnapshot {
            generation: OfficeGeneration::initial(),
            mode,
            desk: Arc::new(DeskSnapshot::awaiting_first_receipt()),
            macro_office: Arc::new(macro_office),
            venue: Arc::new(
                VenueSnapshot::unavailable(
                    Availability::NotConfigured,
                    "TradeLocker protected configuration is absent".to_owned(),
                ),
            ),
            fund: Arc::new(DomainSnapshot::unavailable(Availability::NotConfigured)),
            systems: Arc::new(DomainSnapshot::unavailable(Availability::AwaitingFirstReceipt)),
            ledger: Arc::new(LedgerSnapshot::awaiting_store()),
        }
    }

    /// The next generation with a new desk.
    pub fn with_desk(&self, desk: Arc<DeskSnapshot>) -> (next: OfficeSnapshot<M>)
        ensures
            next.generation == next_generation_spec(self.generation),
            next.mode == self.mode,
            next.desk == desk,
            next.macro_office == self.macro_office,
            next.venue == self.venue,
            next.fund == self.fund,
            next.systems == self.systems,
            next.ledger == self.ledger,
    {
        OfficeSnapshot {
            generation: self.generation.next(),
            mode: self.mode,
            desk,
            macro_office: Arc::clone(&self.macro_office),
            venue: Arc::clone(&self.venue),
            fund: Arc::clone(&self.fund),
            systems: Arc::clone(&self.systems),
            ledger: Arc::clone(&self.ledger),
        }
    }

    /// The next generation with a new ledger.
    pub fn with_ledger(&self, ledger: Arc<LedgerSnapshot>) -> (next: OfficeSnapshot<M>)
        ensures
            next.generation == next_generation_spec(self.generation),
            next.mode == self.mode,
            next.desk == self.desk,
            next.macro_office == self.macro_office,
            next.venue == self.venue,
            next.fund == self.fund,
            next.systems == self.systems,
            next.ledger == ledger,
    {
        OfficeSnapshot {
            generation: self.generation.next(),
            mode: self.mode,
            desk: Arc::clone(&self.desk),
            macro_office: Arc::clone(&self.macro_office),
            venue: Arc::clone(&self.venue),
            fund: Arc::clone(&self.fund),
            systems: Arc::clone(&self.systems),
            ledger,
        }
    }

    /// The next generation with a new macro office.
    pub fn with_macro(&self, macro_office: Arc<M>) -> (next: OfficeSnapshot<M>)
        ensures
            next.generation == next_generation_spec(self.generation),
            next.mode == self.mode,
            next.desk == self.desk,
            next.macro_office == macro_office,
            next.venue == self.venue,
            next.fund == self.fund,
            next.systems == self.systems,
            next.ledger == self.ledger,
    {
        OfficeSnapshot {
            generation: self.generation.next(),
            mode: self.mode,
            desk: Arc::clone(&self.desk),
            macro_office,
            venue: Arc::clone(&self.venue),
            fund: Arc::clone(&self.fund),
            systems: Arc::clone(&self.systems),
            ledger: Arc::clone(&self.ledger),
        }
    }

    /// The next generation with a new venue; fund and systems follow the
    /// venue's generation, time and availability.
    pub fn with_venue(&self, venue: Arc<VenueSnapshot>) -> (next: OfficeSnapshot<M>)
        ensures
            next.generation == next_generation_spec(self.generation),
            next.mode == self.mode,
            next.desk == self.desk,
            next.macro_office == self.macro_office,
            next.venue == venue,
            *next.fund == venue_domain(*venue, JournalSequence(0)),
            *next.systems == venue_domain(*venue, JournalSequence(0)),
            next.ledger == self.ledger,
    {
        let domain = Arc::new(
            DomainSnapshot {
                generation: venue.generation,
                as_of_ns: venue.as_of_ns,
                last_sequence: JournalSequence(0),
                availability: venue.availability,
            },
        );
        OfficeSnapshot {
            generation: self.generation.next(),
            mode: self.mode,
            desk: Arc::clone(&self.desk),
            macro_office: Arc::clone(&self.macro_office),
            venue,
            fund: Arc::clone(&domain),
            systems: domain,
            ledger: Arc::clone(&self.ledger),
        }
    }

    /// The next generation with a new venue and ledger, published together;
    /// fund and systems also carry the ledger's last sequence.
    pub fn with_venue_and_ledger(&self, venue: Arc<VenueSnapshot>, ledger: Arc<LedgerSnapshot>) -> (next:
        OfficeSnapshot<M>)
        ensures
            next.generation == next_generation_spec(self.generation),
            next.mode == self.mode,
            next.desk == self.desk,
            next.macro_office == self.macro_office,
            next.venue == venue,
            *next.fund == venue_domain(*venue, ledger.last_sequence),
            *next.systems == venue_domain(*venue, ledger.last_sequence),
            next.ledger == ledger,
    {
        let domain = Arc::new(
            DomainSnapshot {
                generation: venue.generation,
                as_of_ns: venue.as_of_ns,
                last_sequence: ledger.last_sequence,
                availability: venue.availability,
            },
        );
        OfficeSnapshot {
            generation: self.generation.next(),
            mode: self.mode,
            desk: Arc::clone(&self.desk),
            macro_office: Arc::clone(&self.macro_office),
            venue,
            fund: Arc::clone(&domain),
            systems: domain,
            ledger,
        }
    }
}

impl OfficeSnapshot<DomainSnapshot> {
    /// The office before anything is published, with the macro office
    /// summarised by its availability: every domain is empty, the macro
    /// office and the systems await their first receipt, and no domain
    /// carries a value.
    pub fn awaiting_first_receipt(mode: OperatingMode) -> (office: OfficeSnapshot<DomainSnapshot>)
        ensures
            office.generation.0 == 0,
            office.mode == mode,
            *office.macro_office == (DomainSnapshot {
                generation: 0,
                as_of_ns: 0,
                last_sequence: JournalSequence(0),
                availability: Availability::AwaitingFirstReceipt,
            }),
            office.desk.availability == Availability::AwaitingFirstReceipt,
            office.desk.instruments@.len() == 0,
            office.venue.availability == Availability::NotConfigured,
            office.fund.availability == Availability::NotConfigured,
            office.systems.availability == Availability::AwaitingFirstReceipt,
            office.ledger.availability == Availability::AwaitingFirstReceipt,
            !has_value_spec(office.desk.availability),
            !has_value_spec(office.macro_office.availability),
            !has_value_spec(office.venue.availability),
            !has_value_spec(office.fund.availability),
            !has_value_spec(office.systems.availability),
            !has_value_spec(office.ledger.availability),
    {
        OfficeSnapshot::empty(mode, DomainSnapshot::unavailable(Availability::AwaitingFirstReceipt))
    }
}

} // verus!
