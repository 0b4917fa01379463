//! Session structure: the current session's high and low, the daily-extreme
//! bands, and the previous session's extremes published at each rotation.

use super::{
    calendar_session, find_session, IdSequence, LevelSeed, ProducerError, advance_spec, check_stream, level, level_spec,
    moved_level, next_id_spec, older, rotate_left, rotate_left_spec, stream_check, time_bits,
    to_bits, update_level,
};
use crate::data_plane::{
    CalendarId, CanonicalBar, DerivationVersion, InstrumentId, JournalSequence, Session,
    SessionCalendar, SessionSegment, Timeframe, session_holds, timeframe_from_code_spec,
};
use crate::market_state::contracts::{
    LevelFamily, LevelId, LevelKind, LevelMetrics, LevelProvenance, LevelRole, LevelState,
    PriceSpace, ProducerId, StructuralBand, StructuralLevel, StructuralMutation, StructuralObject,
};
use std::sync::Arc;
use vstd::prelude::*;

verus! {

/// Number of completed daily-extreme band pairs kept active.
pub const RETAINED_DAILY_EXTREMES: usize = 5;

/// Structure of the session in progress.
#[derive(Clone, Copy, Debug, PartialEq, Eq, Structural)]
pub struct ActiveSession {
    pub session: Session,
    pub high: StructuralLevel,
    pub low: StructuralLevel,
    pub upper_band: StructuralBand,
    pub lower_band: StructuralBand,
    pub extreme_high: i64,
    pub extreme_low: i64,
}

/// Session-structure producer of one instrument.
pub struct SessionStructureProducer {
    instrument: InstrumentId,
    price_space: PriceSpace,
    calendar: Arc<SessionCalendar>,
    derivation_version: DerivationVersion,
    ids: IdSequence,
    active: Option<ActiveSession>,
    previous_levels: Option<(LevelId, LevelId)>,
    completed_bands: Vec<(LevelId, LevelId)>,
    last_bar_open_ns: Option<i64>,
}

/// Exclusive group of the session's levels.
pub open spec fn session_group(open_ns: i64, discriminator: u64) -> u64 {
    rotate_left_spec(time_bits(open_ns), 17) ^ discriminator
}

/// Larger of two prices.
pub open spec fn max_price(a: i64, b: i64) -> i64 {
    if a >= b {
        a
    } else {
        b
    }
}

/// Smaller of two prices.
pub open spec fn min_price(a: i64, b: i64) -> i64 {
    if a <= b {
        a
    } else {
        b
    }
}

/// The fields every session object shares.
pub open spec fn session_seed(
    id: LevelId,
    instrument: InstrumentId,
    price_space: PriceSpace,
    calendar_id: CalendarId,
    derivation_version: DerivationVersion,
    kind: LevelKind,
    family: LevelFamily,
    role: LevelRole,
    price: i64,
    now_ns: i64,
    epoch_ns: i64,
    group: u64,
    ordinal: u16,
    bar: CanonicalBar,
) -> LevelSeed {
    LevelSeed {
        id,
        instrument,
        price_space,
        kind,
        family,
        role,
        price,
        now_ns,
        producer: ProducerId(1),
        calendar_id,
        derivation_version,
        timeframe: timeframe_from_code_spec(bar.timeframe).unwrap(),
        epoch_ns,
        exclusive_group: group,
        ordinal,
        first_sequence: JournalSequence(bar.first_sequence),
        last_sequence: JournalSequence(bar.last_sequence),
    }
}

/// A daily-extreme band of `session` first seen in `bar`.
pub open spec fn band_spec(
    id: LevelId,
    instrument: InstrumentId,
    price_space: PriceSpace,
    calendar_id: CalendarId,
    derivation_version: DerivationVersion,
    kind: LevelKind,
    role: LevelRole,
    lower: i64,
    upper: i64,
    reference_price: i64,
    session: Session,
    bar: CanonicalBar,
) -> StructuralBand {
    StructuralBand {
        id,
        instrument_id: instrument,
        price_space,
        kind,
        family: LevelFamily::Calendar,
        role,
        lower,
        upper,
        reference_price,
        created_at_ns: bar.ts_close_ns,
        effective_at_ns: bar.ts_close_ns,
        updated_at_ns: bar.ts_close_ns,
        state: LevelState::Developing,
        provenance: LevelProvenance {
            producer_id: ProducerId(1),
            first_sequence: JournalSequence(bar.first_sequence),
            last_sequence: JournalSequence(bar.last_sequence),
            derivation_version,
            calendar_id,
            timeframe: Some(timeframe_from_code_spec(bar.timeframe).unwrap()),
            epoch_ns: session.open_ns,
            exclusive_group: 0,
            ordinal: 0,
        },
        metrics: LevelMetrics { age_bars: 0, velocity_atr_ppm: 0 },
    }
}

/// A band reshaped by `bar` to `[lower, upper]` with `reference_price`.
pub open spec fn reshaped_band(band: StructuralBand, lower: i64, upper: i64, reference_price: i64, bar: CanonicalBar) -> StructuralBand {
    StructuralBand {
        lower,
        upper,
        reference_price,
        updated_at_ns: bar.ts_close_ns,
        provenance: LevelProvenance { last_sequence: JournalSequence(bar.last_sequence), ..band.provenance },
        metrics: LevelMetrics { age_bars: older(band.metrics.age_bars), ..band.metrics },
        ..band
    }
}

/// Announcements of a new session's four objects.
pub open spec fn announce_session(active: ActiveSession) -> Seq<StructuralMutation> {
    seq![
        StructuralMutation::Created(StructuralObject::Level(active.high)),
        StructuralMutation::Created(StructuralObject::Level(active.low)),
        StructuralMutation::Created(StructuralObject::Band(active.upper_band)),
        StructuralMutation::Created(StructuralObject::Band(active.lower_band)),
    ]
}

/// Mutations closing the previous session: its high and low freeze at its
/// close and expire at the new open; its bands freeze at its close.
pub open spec fn close_session(previous: ActiveSession, open_ns: i64) -> Seq<StructuralMutation> {
    seq![
        StructuralMutation::Frozen { id: previous.high.id, at_ns: previous.session.close_ns },
        StructuralMutation::Expired { id: previous.high.id, at_ns: open_ns },
        StructuralMutation::Frozen { id: previous.low.id, at_ns: previous.session.close_ns },
        StructuralMutation::Expired { id: previous.low.id, at_ns: open_ns },
        StructuralMutation::Frozen { id: previous.upper_band.id, at_ns: previous.session.close_ns },
        StructuralMutation::Frozen { id: previous.lower_band.id, at_ns: previous.session.close_ns },
    ]
}

/// Expiry of a pair of objects at `at_ns`.
pub open spec fn expire_pair(pair: (LevelId, LevelId), at_ns: i64) -> Seq<StructuralMutation> {
    seq![
        StructuralMutation::Expired { id: pair.0, at_ns },
        StructuralMutation::Expired { id: pair.1, at_ns },
    ]
}

impl SessionStructureProducer {
    /// Instrument this producer serves.
    pub closed spec fn instrument_spec(&self) -> InstrumentId {
        self.instrument
    }

    /// The session in progress, if any.
    pub closed spec fn active_spec(&self) -> Option<ActiveSession> {
        self.active
    }

    /// Identities of the published previous-session high and low.
    pub closed spec fn previous_levels_spec(&self) -> Option<(LevelId, LevelId)> {
        self.previous_levels
    }

    /// Completed band pairs still active, oldest first.
    pub closed spec fn completed_spec(&self) -> Seq<(LevelId, LevelId)> {
        self.completed_bands@
    }

    /// Open time of the last accepted bar.
    pub closed spec fn last_open_spec(&self) -> Option<i64> {
        self.last_bar_open_ns
    }

    /// Identity allocator state.
    pub closed spec fn ids_spec(&self) -> IdSequence {
        self.ids
    }

    /// The producer's invariant.
    pub closed spec fn wf(&self) -> bool {
        &&& self.calendar.wf()
        &&& self.ids.producer == ProducerId(1)
        &&& self.ids.instrument == self.instrument
        &&& self.completed_bands@.len() <= RETAINED_DAILY_EXTREMES
    }

    /// The calendar this producer reads.
    pub closed spec fn calendar_spec(&self) -> SessionCalendar {
        *self.calendar
    }

    /// Why the producer refuses `bar`, if it does.
    pub open spec fn check(&self, bar: CanonicalBar) -> Option<ProducerError> {
        if stream_check(bar, self.instrument_spec(), self.last_open_spec()) is Some {
            stream_check(bar, self.instrument_spec(), self.last_open_spec())
        } else if calendar_session(self.calendar_spec(), self.instrument_spec(), bar.ts_open_ns) is None {
            Some(ProducerError::OutsideSession { bar_open_ns: bar.ts_open_ns })
        } else {
            None
        }
    }


    /// The structure a session starts with at its first bar, drawing four
    /// identities from `ids`.
    pub closed spec fn opened(&self, ids: IdSequence, session: Session, bar: CanonicalBar) -> ActiveSession {
        let group = session_group(session.open_ns, 1);
        let cal = self.calendar.id_spec();
        ActiveSession {
            session,
            high: level_spec(
                session_seed(
                    next_id_spec(ids),
                    self.instrument,
                    self.price_space,
                    cal,
                    self.derivation_version,
                    LevelKind::CurrentSessionHigh,
                    LevelFamily::Session,
                    LevelRole::UpperBoundary,
                    bar.high,
                    bar.ts_close_ns,
                    session.open_ns,
                    group,
                    0,
                    bar,
                ),
            ),
            low: level_spec(
                session_seed(
                    next_id_spec(advance_spec(ids)),
                    self.instrument,
                    self.price_space,
                    cal,
                    self.derivation_version,
                    LevelKind::CurrentSessionLow,
                    LevelFamily::Session,
                    LevelRole::LowerBoundary,
                    bar.low,
                    bar.ts_close_ns,
                    session.open_ns,
                    group,
                    1,
                    bar,
                ),
            ),
            upper_band: band_spec(
                next_id_spec(advance_spec(advance_spec(ids))),
                self.instrument,
                self.price_space,
                cal,
                self.derivation_version,
                LevelKind::DailyExtremeUpperBand,
                LevelRole::UpperBoundary,
                max_price(bar.open, bar.close),
                bar.high,
                bar.high,
                session,
                bar,
            ),
            lower_band: band_spec(
                next_id_spec(advance_spec(advance_spec(advance_spec(ids)))),
                self.instrument,
                self.price_space,
                cal,
                self.derivation_version,
                LevelKind::DailyExtremeLowerBand,
                LevelRole::LowerBoundary,
                bar.low,
                min_price(bar.open, bar.close),
                bar.low,
                session,
                bar,
            ),
            extreme_high: bar.high,
            extreme_low: bar.low,
        }
    }

    /// The previous session's high or low republished as a calendar level
    /// at the new session's open, keeping its sequences.
    pub closed spec fn published(
        &self,
        id: LevelId,
        source: StructuralLevel,
        kind: LevelKind,
        role: LevelRole,
        ordinal: u16,
        previous: ActiveSession,
        session: Session,
        bar: CanonicalBar,
    ) -> StructuralLevel {
        let fresh = level_spec(
            session_seed(
                id,
                self.instrument,
                self.price_space,
                self.calendar.id_spec(),
                self.derivation_version,
                kind,
                LevelFamily::Calendar,
                role,
                source.price,
                session.open_ns,
                previous.session.open_ns,
                session_group(previous.session.open_ns, 2),
                ordinal,
                bar,
            ),
        );
        StructuralLevel {
            provenance: LevelProvenance {
                first_sequence: source.provenance.first_sequence,
                last_sequence: source.provenance.last_sequence,
                ..fresh.provenance
            },
            ..fresh
        }
    }

    /// Rotation into `session`: the state parts it leaves and what it emits,
    /// as (identities, previous levels, completed bands, mutations).
    pub closed spec fn rotation(&self, session: Session, bar: CanonicalBar) -> (IdSequence, Option<(LevelId, LevelId)>, Seq<
        (LevelId, LevelId),
    >, Seq<StructuralMutation>) {
        match self.active {
            None => (self.ids, self.previous_levels, self.completed_bands@, Seq::empty()),
            Some(previous) => {
                let ids = advance_spec(advance_spec(self.ids));
                let pair = (next_id_spec(self.ids), next_id_spec(advance_spec(self.ids)));
                let retired = match self.previous_levels {
                    Some(old_pair) => expire_pair(old_pair, session.open_ns),
                    None => Seq::empty(),
                };
                let high = self.published(
                    pair.0,
                    previous.high,
                    LevelKind::PreviousSessionHigh,
                    LevelRole::UpperBoundary,
                    0,
                    previous,
                    session,
                    bar,
                );
                let low = self.published(
                    pair.1,
                    previous.low,
                    LevelKind::PreviousSessionLow,
                    LevelRole::LowerBoundary,
                    1,
                    previous,
                    session,
                    bar,
                );
                let completed = self.completed_bands@.push((previous.upper_band.id, previous.lower_band.id));
                let (kept, dropped) = if completed.len() > RETAINED_DAILY_EXTREMES {
                    (completed.drop_first(), expire_pair(completed[0], session.open_ns))
                } else {
                    (completed, Seq::empty())
                };
                (
                    ids,
                    Some(pair),
                    kept,
                    close_session(previous, session.open_ns) + retired + seq![
                        StructuralMutation::Created(StructuralObject::Level(high)),
                        StructuralMutation::Created(StructuralObject::Level(low)),
                    ] + dropped,
                )
            },
        }
    }

    /// The session's high side moved by a bar that exceeds it.
    pub open spec fn extended_up(active: ActiveSession, bar: CanonicalBar) -> (ActiveSession, Seq<StructuralMutation>) {
        if bar.high > active.extreme_high {
            let high = moved_level(active.high, bar.high, bar);
            let band = reshaped_band(active.upper_band, max_price(bar.open, bar.close), bar.high, bar.high, bar);
            (
                ActiveSession { extreme_high: bar.high, high, upper_band: band, ..active },
                seq![
                    StructuralMutation::Updated(StructuralObject::Level(high)),
                    StructuralMutation::Updated(StructuralObject::Band(band)),
                ],
            )
        } else {
            (active, Seq::empty())
        }
    }

    /// The session's low side moved by a bar that undercuts it.
    pub open spec fn extended_down(active: ActiveSession, bar: CanonicalBar) -> (ActiveSession, Seq<StructuralMutation>) {
        if bar.low < active.extreme_low {
            let low = moved_level(active.low, bar.low, bar);
            let band = reshaped_band(active.lower_band, bar.low, min_price(bar.open, bar.close), bar.low, bar);
            (
                ActiveSession { extreme_low: bar.low, low, lower_band: band, ..active },
                seq![
                    StructuralMutation::Updated(StructuralObject::Level(low)),
                    StructuralMutation::Updated(StructuralObject::Band(band)),
                ],
            )
        } else {
            (active, Seq::empty())
        }
    }

    /// The session structure moved by a bar of the same session.
    pub open spec fn extended(active: ActiveSession, bar: CanonicalBar) -> (ActiveSession, Seq<StructuralMutation>) {
        let (up, up_emitted) = Self::extended_up(active, bar);
        let (down, down_emitted) = Self::extended_down(up, bar);
        (down, up_emitted + down_emitted)
    }

    /// Whether `bar`, once accepted, starts a new session: it is the first
    /// bar, or its session is not the one in progress. Only then does the
    /// producer read the bar's timeframe.
    pub closed spec fn opens_session(&self, bar: CanonicalBar) -> bool {
        match calendar_session(self.calendar_spec(), self.instrument_spec(), bar.ts_open_ns) {
            Some(session) => self.rotates(session),
            None => false,
        }
    }

    /// Whether an accepted bar starts a new session.
    pub closed spec fn rotates(&self, session: Session) -> bool {
        match self.active {
            None => true,
            Some(active) => active.session.open_ns != session.open_ns,
        }
    }

    /// After an accepted bar in `session`: the session in progress, the
    /// identities, the previous levels, the completed bands and the mutations.
    pub closed spec fn step(&self, bar: CanonicalBar, session: Session) -> (ActiveSession, IdSequence, Option<
        (LevelId, LevelId),
    >, Seq<(LevelId, LevelId)>, Seq<StructuralMutation>) {
        if self.rotates(session) {
            let (ids, previous, completed, closed) = self.rotation(session, bar);
            let opened = self.opened(ids, session, bar);
            (
                opened,
                advance_spec(advance_spec(advance_spec(advance_spec(ids)))),
                previous,
                completed,
                closed + announce_session(opened),
            )
        } else {
            let (moved, emitted) = Self::extended(self.active.unwrap(), bar);
            (moved, self.ids, self.previous_levels, self.completed_bands@, emitted)
        }
    }

    /// After an accepted bar.
    pub closed spec fn next(&self, bar: CanonicalBar) -> (ActiveSession, IdSequence, Option<(LevelId, LevelId)>, Seq<
        (LevelId, LevelId),
    >, Seq<StructuralMutation>) {
        self.step(bar, calendar_session(self.calendar_spec(), self.instrument_spec(), bar.ts_open_ns).unwrap())
    }

    /// A producer for `instrument` with no session yet.
    pub fn new(
        instrument: InstrumentId,
        price_space: PriceSpace,
        calendar: Arc<SessionCalendar>,
        derivation_version: DerivationVersion,
    ) -> (producer: SessionStructureProducer)
        requires
            calendar.wf(),
        ensures
            producer.wf(),
            producer.instrument_spec() == instrument,
            producer.active_spec() is None,
            producer.previous_levels_spec() is None,
            producer.completed_spec().len() == 0,
            producer.last_open_spec() is None,
            producer.ids_spec() == (IdSequence { producer: ProducerId(1), instrument, next: 1 }),
            producer.calendar_spec() == *calendar,
    {
        SessionStructureProducer {
            instrument,
            price_space,
            calendar,
            derivation_version,
            ids: IdSequence::new(ProducerId(1), instrument),
            active: None,
            previous_levels: None,
            completed_bands: Vec::new(),
            last_bar_open_ns: None,
        }
    }

    /// Feeds one bar. A refused bar changes nothing; an accepted bar appends
    /// the producer's mutations to `output`.
    pub fn on_bar(&mut self, bar: &CanonicalBar, output: &mut Vec<StructuralMutation>) -> (result: Result<
        (),
        ProducerError,
    >)
        requires
            old(self).wf(),
            old(self).check(*bar) is None && old(self).opens_session(*bar) ==> timeframe_from_code_spec(bar.timeframe) is Some,
        ensures
            final(self).wf(),
            match result {
                Err(error) => {
                    &&& old(self).check(*bar) == Some(error)
                    &&& *final(self) == *old(self)
                    &&& final(output)@ == old(output)@
                },
                Ok(()) => {
                    &&& old(self).check(*bar) is None
                    &&& final(self).instrument_spec() == old(self).instrument_spec()
                    &&& final(self).calendar_spec() == old(self).calendar_spec()
                    &&& final(self).last_open_spec() == Some(bar.ts_open_ns)
                    &&& final(self).active_spec() == Some(old(self).next(*bar).0)
                    &&& final(self).ids_spec() == old(self).next(*bar).1
                    &&& final(self).previous_levels_spec() == old(self).next(*bar).2
                    &&& final(self).completed_spec() == old(self).next(*bar).3
                    &&& final(output)@ == old(output)@ + old(self).next(*bar).4
                },
            },
    {
        check_stream(bar, self.instrument, self.last_bar_open_ns)?;
        let session = match find_session(&self.calendar, self.instrument, bar.ts_open_ns) {
            Some(session) => session,
            None => {
                return Err(ProducerError::OutsideSession { bar_open_ns: bar.ts_open_ns });
            },
        };
        self.last_bar_open_ns = Some(bar.ts_open_ns);
        let rotate = match &self.active {
            None => true,
            Some(active) => active.session.open_ns != session.open_ns,
        };
        if rotate {
            self.rotate_session(session, bar, output);
        } else {
            self.update_active(bar, output);
        }
        Ok(())
    }

    /// Closes the previous session, if any, and opens `session`.
    fn rotate_session(&mut self, session: Session, bar: &CanonicalBar, output: &mut Vec<StructuralMutation>)
        requires
            old(self).wf(),
            old(self).rotates(session),
            timeframe_from_code_spec(bar.timeframe) is Some,
        ensures
            final(self).wf(),
            final(self).instrument == old(self).instrument,
            final(self).calendar == old(self).calendar,
            final(self).last_bar_open_ns == old(self).last_bar_open_ns,
            final(self).active == Some(old(self).step(*bar, session).0),
            final(self).ids == old(self).step(*bar, session).1,
            final(self).previous_levels == old(self).step(*bar, session).2,
            final(self).completed_bands@ == old(self).step(*bar, session).3,
            final(output)@ == old(output)@ + old(self).step(*bar, session).4,
    {
        let ghost start = *self;
        let ghost start_output = output@;
        let ghost rotation = start.rotation(session, *bar);
        self.close_previous(session, bar, output);
        proof {
            assert(self.ids == rotation.0);
        }
        let opened = self.create_active(session, bar);
        output.push(StructuralMutation::Created(StructuralObject::Level(opened.high)));
        output.push(StructuralMutation::Created(StructuralObject::Level(opened.low)));
        output.push(StructuralMutation::Created(StructuralObject::Band(opened.upper_band)));
        output.push(StructuralMutation::Created(StructuralObject::Band(opened.lower_band)));
        self.active = Some(opened);
        proof {
            assert(output@ =~= start_output + (rotation.3 + announce_session(opened)));
        }
    }

    /// Freezes and retires the previous session's objects and publishes its
    /// extremes.
    fn close_previous(&mut self, session: Session, bar: &CanonicalBar, output: &mut Vec<StructuralMutation>)
        requires
            old(self).wf(),
            timeframe_from_code_spec(bar.timeframe) is Some,
        ensures
            final(self).wf(),
            final(self).instrument == old(self).instrument,
            final(self).price_space == old(self).price_space,
            final(self).calendar == old(self).calendar,
            final(self).derivation_version == old(self).derivation_version,
            final(self).last_bar_open_ns == old(self).last_bar_open_ns,
            final(self).active is None,
            final(self).ids == old(self).rotation(session, *bar).0,
            final(self).previous_levels == old(self).rotation(session, *bar).1,
            final(self).completed_bands@ == old(self).rotation(session, *bar).2,
            final(output)@ == old(output)@ + old(self).rotation(session, *bar).3,
    {
        let ghost start = *self;
        let ghost start_output = output@;
        if self.active.is_none() {
            proof {
                assert(output@ =~= start_output + Seq::<StructuralMutation>::empty());
            }
            return;
        }
        let previous = self.active.unwrap();
        self.active = None;
        output.push(StructuralMutation::Frozen { id: previous.high.id, at_ns: previous.session.close_ns });
        output.push(StructuralMutation::Expired { id: previous.high.id, at_ns: session.open_ns });
        output.push(StructuralMutation::Frozen { id: previous.low.id, at_ns: previous.session.close_ns });
        output.push(StructuralMutation::Expired { id: previous.low.id, at_ns: session.open_ns });
        output.push(StructuralMutation::Frozen { id: previous.upper_band.id, at_ns: previous.session.close_ns });
        output.push(StructuralMutation::Frozen { id: previous.lower_band.id, at_ns: previous.session.close_ns });
        let ghost after_close = output@;
        let high_id = self.ids.take();
        let low_id = self.ids.take();
        match self.previous_levels {
            Some(pair) => {
                output.push(StructuralMutation::Expired { id: pair.0, at_ns: session.open_ns });
                output.push(StructuralMutation::Expired { id: pair.1, at_ns: session.open_ns });
            },
            None => {},
        }
        let ghost after_retire = output@;
        self.previous_levels = Some((high_id, low_id));
        let group = rotate_left(to_bits(previous.session.open_ns), 17) ^ 2u64;
        let timeframe = Timeframe::from_code(bar.timeframe).unwrap();
        let calendar_id = self.calendar.id();
        let mut previous_high = level(
            LevelSeed {
                id: high_id,
                instrument: self.instrument,
                price_space: self.price_space,
                kind: LevelKind::PreviousSessionHigh,
                family: LevelFamily::Calendar,
                role: LevelRole::UpperBoundary,
                price: previous.high.price,
                now_ns: session.open_ns,
                producer: ProducerId(1),
                calendar_id,
                derivation_version: self.derivation_version,
                timeframe,
                epoch_ns: previous.session.open_ns,
                exclusive_group: group,
                ordinal: 0,
                first_sequence: JournalSequence(bar.first_sequence),
                last_sequence: JournalSequence(bar.last_sequence),
            },
        );
        previous_high.provenance.first_sequence = previous.high.provenance.first_sequence;
        previous_high.provenance.last_sequence = previous.high.provenance.last_sequence;
        let mut previous_low = level(
            LevelSeed {
                id: low_id,
                instrument: self.instrument,
                price_space: self.price_space,
                kind: LevelKind::PreviousSessionLow,
                family: LevelFamily::Calendar,
                role: LevelRole::LowerBoundary,
                price: previous.low.price,
                now_ns: session.open_ns,
                producer: ProducerId(1),
                calendar_id,
                derivation_version: self.derivation_version,
                timeframe,
                epoch_ns: previous.session.open_ns,
                exclusive_group: group,
                ordinal: 1,
                first_sequence: JournalSequence(bar.first_sequence),
                last_sequence: JournalSequence(bar.last_sequence),
            },
        );
        previous_low.provenance.first_sequence = previous.low.provenance.first_sequence;
        previous_low.provenance.last_sequence = previous.low.provenance.last_sequence;
        output.push(StructuralMutation::Created(StructuralObject::Level(previous_high)));
        output.push(StructuralMutation::Created(StructuralObject::Level(previous_low)));
        let ghost after_publish = output@;
        self.completed_bands.push((previous.upper_band.id, previous.lower_band.id));
        let ghost completed = self.completed_bands@;
        if self.completed_bands.len() > RETAINED_DAILY_EXTREMES {
            let dropped = self.completed_bands.remove(0);
            output.push(StructuralMutation::Expired { id: dropped.0, at_ns: session.open_ns });
            output.push(StructuralMutation::Expired { id: dropped.1, at_ns: session.open_ns });
            proof {
                assert(self.completed_bands@ =~= completed.drop_first());
            }
        }
        proof {
            let expected = start.rotation(session, *bar);
            assert(previous_high == start.published(
                high_id,
                previous.high,
                LevelKind::PreviousSessionHigh,
                LevelRole::UpperBoundary,
                0,
                previous,
                session,
                *bar,
            ));
            assert(previous_low == start.published(
                low_id,
                previous.low,
                LevelKind::PreviousSessionLow,
                LevelRole::LowerBoundary,
                1,
                previous,
                session,
                *bar,
            ));
            assert(self.completed_bands@ == expected.2);
            assert(output@ =~= start_output + expected.3);
        }
    }

    /// The new session's structure, drawing four identities.
    fn create_active(&mut self, session: Session, bar: &CanonicalBar) -> (opened: ActiveSession)
        requires
            old(self).wf(),
            timeframe_from_code_spec(bar.timeframe) is Some,
        ensures
            final(self).wf(),
            opened == old(self).opened(old(self).ids, session, *bar),
            final(self).ids == advance_spec(advance_spec(advance_spec(advance_spec(old(self).ids)))),
            final(self).instrument == old(self).instrument,
            final(self).calendar == old(self).calendar,
            final(self).active == old(self).active,
            final(self).previous_levels == old(self).previous_levels,
            final(self).completed_bands@ == old(self).completed_bands@,
            final(self).last_bar_open_ns == old(self).last_bar_open_ns,
    {
        let group = rotate_left(to_bits(session.open_ns), 17) ^ 1u64;
        let timeframe = Timeframe::from_code(bar.timeframe).unwrap();
        let calendar_id = self.calendar.id();
        let high_id = self.ids.take();
        let low_id = self.ids.take();
        let upper_band_id = self.ids.take();
        let lower_band_id = self.ids.take();
        let seed = LevelSeed {
            id: high_id,
            instrument: self.instrument,
            price_space: self.price_space,
            kind: LevelKind::CurrentSessionHigh,
            family: LevelFamily::Session,
            role: LevelRole::UpperBoundary,
            price: bar.high,
            now_ns: bar.ts_close_ns,
            producer: ProducerId(1),
            calendar_id,
            derivation_version: self.derivation_version,
            timeframe,
            epoch_ns: session.open_ns,
            exclusive_group: group,
            ordinal: 0,
            first_sequence: JournalSequence(bar.first_sequence),
            last_sequence: JournalSequence(bar.last_sequence),
        };
        let high = level(seed);
        let low = level(
            LevelSeed {
                id: low_id,
                kind: LevelKind::CurrentSessionLow,
                role: LevelRole::LowerBoundary,
                price: bar.low,
                ordinal: 1,
                ..seed
            },
        );
        let body_top = if bar.open >= bar.close {
            bar.open
        } else {
            bar.close
        };
        let body_bottom = if bar.open <= bar.close {
            bar.open
        } else {
            bar.close
        };
        let upper_band = self.band(
            upper_band_id,
            LevelKind::DailyExtremeUpperBand,
            LevelRole::UpperBoundary,
            body_top,
            bar.high,
            bar.high,
            session,
            bar,
        );
        let lower_band = self.band(
            lower_band_id,
            LevelKind::DailyExtremeLowerBand,
            LevelRole::LowerBoundary,
            bar.low,
            body_bottom,
            bar.low,
            session,
            bar,
        );
        ActiveSession {
            session,
            high,
            low,
            upper_band,
            lower_band,
            extreme_high: bar.high,
            extreme_low: bar.low,
        }
    }

    /// Moves the session's extremes to a bar that exceeds them.
    fn update_active(&mut self, bar: &CanonicalBar, output: &mut Vec<StructuralMutation>)
        requires
            old(self).wf(),
            old(self).active is Some,
        ensures
            final(self).wf(),
            final(self).instrument == old(self).instrument,
            final(self).calendar == old(self).calendar,
            final(self).last_bar_open_ns == old(self).last_bar_open_ns,
            final(self).ids == old(self).ids,
            final(self).previous_levels == old(self).previous_levels,
            final(self).completed_bands@ == old(self).completed_bands@,
            final(self).active == Some(Self::extended(old(self).active.unwrap(), *bar).0),
            final(output)@ == old(output)@ + Self::extended(old(self).active.unwrap(), *bar).1,
    {
        let ghost start_output = output@;
        let active = self.active.unwrap();
        let up = extend_up(active, bar, output);
        let down = extend_down(up, bar, output);
        self.active = Some(down);
        proof {
            assert(output@ =~= start_output + Self::extended(active, *bar).1);
        }
    }

    /// A daily-extreme band of `session` first seen in `bar`.
    fn band(
        &self,
        id: LevelId,
        kind: LevelKind,
        role: LevelRole,
        lower: i64,
        upper: i64,
        reference_price: i64,
        session: Session,
        bar: &CanonicalBar,
    ) -> (band: StructuralBand)
        requires
            timeframe_from_code_spec(bar.timeframe) is Some,
        ensures
            band == band_spec(
                id,
                self.instrument,
                self.price_space,
                self.calendar.id_spec(),
                self.derivation_version,
                kind,
                role,
                lower,
                upper,
                reference_price,
                session,
                *bar,
            ),
    {
        StructuralBand {
            id,
            instrument_id: self.instrument,
            price_space: self.price_space,
            kind,
            family: LevelFamily::Calendar,
            role,
            lower,
            upper,
            reference_price,
            created_at_ns: bar.ts_close_ns,
            effective_at_ns: bar.ts_close_ns,
            updated_at_ns: bar.ts_close_ns,
            state: LevelState::Developing,
            provenance: LevelProvenance {
                producer_id: ProducerId(1),
                first_sequence: JournalSequence(bar.first_sequence),
                last_sequence: JournalSequence(bar.last_sequence),
                derivation_version: self.derivation_version,
                calendar_id: self.calendar.id(),
                timeframe: Some(Timeframe::from_code(bar.timeframe).unwrap()),
                epoch_ns: session.open_ns,
                exclusive_group: 0,
                ordinal: 0,
            },
            metrics: LevelMetrics { age_bars: 0, velocity_atr_ppm: 0 },
        }
    }
}

/// Moves the high side of a session to a bar that exceeds it.
fn extend_up(active: ActiveSession, bar: &CanonicalBar, output: &mut Vec<StructuralMutation>) -> (moved: ActiveSession)
    ensures
        moved == SessionStructureProducer::extended_up(active, *bar).0,
        final(output)@ == old(output)@ + SessionStructureProducer::extended_up(active, *bar).1,
{
    let ghost initial_active = active;
    let mut active = active;
    if bar.high > active.extreme_high {
        active.extreme_high = bar.high;
        update_level(&mut active.high, bar.high, bar);
        active.upper_band.lower = if bar.open >= bar.close {
            bar.open
        } else {
            bar.close
        };
        active.upper_band.upper = bar.high;
        active.upper_band.reference_price = bar.high;
        active.upper_band.updated_at_ns = bar.ts_close_ns;
        active.upper_band.provenance.last_sequence = JournalSequence(bar.last_sequence);
        active.upper_band.metrics.age_bars = if active.upper_band.metrics.age_bars == u32::MAX {
            u32::MAX
        } else {
            active.upper_band.metrics.age_bars + 1
        };
        output.push(StructuralMutation::Updated(StructuralObject::Level(active.high)));
        output.push(StructuralMutation::Updated(StructuralObject::Band(active.upper_band)));
        proof {
            assert(output@ =~= old(output)@ + SessionStructureProducer::extended_up(initial_active, *bar).1);
        }
    } else {
        proof {
            assert(output@ =~= old(output)@ + Seq::<StructuralMutation>::empty());
        }
    }
    active
}

/// Moves the low side of a session to a bar that undercuts it.
fn extend_down(active: ActiveSession, bar: &CanonicalBar, output: &mut Vec<StructuralMutation>) -> (moved: ActiveSession)
    ensures
        moved == SessionStructureProducer::extended_down(active, *bar).0,
        final(output)@ == old(output)@ + SessionStructureProducer::extended_down(active, *bar).1,
{
    let ghost initial_active = active;
    let mut active = active;
    if bar.low < active.extreme_low {
        active.extreme_low = bar.low;
        update_level(&mut active.low, bar.low, bar);
        active.lower_band.lower = bar.low;
        active.lower_band.upper = if bar.open <= bar.close {
            bar.open
        } else {
            bar.close
        };
        active.lower_band.reference_price = bar.low;
        active.lower_band.updated_at_ns = bar.ts_close_ns;
        active.lower_band.provenance.last_sequence = JournalSequence(bar.last_sequence);
        active.lower_band.metrics.age_bars = if active.lower_band.metrics.age_bars == u32::MAX {
            u32::MAX
        } else {
            active.lower_band.metrics.age_bars + 1
        };
        output.push(StructuralMutation::Updated(StructuralObject::Level(active.low)));
        output.push(StructuralMutation::Updated(StructuralObject::Band(active.lower_band)));
        proof {
            assert(output@ =~= old(output)@ + SessionStructureProducer::extended_down(initial_active, *bar).1);
        }
    } else {
        proof {
            assert(output@ =~= old(output)@ + Seq::<StructuralMutation>::empty());
        }
    }
    active
}

} // verus!
