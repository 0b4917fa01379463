//! Opening range: high, low and midpoint of the first minutes of each main
//! reference session, frozen when the formation window closes.

use super::{
    calendar_session, find_session, IdSequence, LevelSeed, ProducerError, advance_spec, check_stream, level, level_spec, midpoint,
    midpoint_spec, moved_level, next_id_spec, rotate_left, rotate_left_spec, stream_check,
    time_bits, to_bits, update_level,
};
use crate::data_plane::{
    CanonicalBar, DerivationVersion, InstrumentId, JournalSequence, MINUTE_NS, Session,
    SessionCalendar, SessionSegment, Timeframe, session_holds,
    timeframe_from_code_spec,
};
use crate::market_state::contracts::{
    LevelFamily, LevelKind, LevelRole, PriceSpace, ProducerId, StructuralLevel,
    StructuralMutation, StructuralObject,
};
use std::sync::Arc;
use vstd::prelude::*;

verus! {

/// Length of the opening-range formation window.
#[derive(Clone, Copy, Debug, PartialEq, Eq, Structural)]
pub struct OpeningRangeSpec {
    pub duration_ns: i64,
}

impl OpeningRangeSpec {
    /// The twenty-minute opening range.
    pub fn m20() -> (spec: OpeningRangeSpec)
        ensures
            spec.duration_ns == 20 * MINUTE_NS,
    {
        OpeningRangeSpec { duration_ns: 20 * MINUTE_NS }
    }
}

/// The opening range of the current session.
#[derive(Clone, Copy, Debug, PartialEq, Eq, Structural)]
pub struct ActiveRange {
    pub session_open_ns: i64,
    pub formation_end_ns: i64,
    pub high: StructuralLevel,
    pub low: StructuralLevel,
    pub mid: StructuralLevel,
    pub frozen: bool,
}

/// Opening-range producer of one instrument.
pub struct OpeningRangeProducer {
    instrument: InstrumentId,
    price_space: PriceSpace,
    calendar: Arc<SessionCalendar>,
    derivation_version: DerivationVersion,
    spec: OpeningRangeSpec,
    ids: IdSequence,
    active: Option<ActiveRange>,
    last_bar_open_ns: Option<i64>,
}

/// Mutations that freeze (when still forming) and then expire a range.
pub open spec fn expire_range(active: ActiveRange, at_ns: i64) -> Seq<StructuralMutation> {
    let expired = seq![
        StructuralMutation::Expired { id: active.high.id, at_ns },
        StructuralMutation::Expired { id: active.low.id, at_ns },
        StructuralMutation::Expired { id: active.mid.id, at_ns },
    ];
    if active.frozen {
        expired
    } else {
        freeze_range(active) + expired
    }
}

/// Mutations that freeze a range at the end of its formation window.
pub open spec fn freeze_range(active: ActiveRange) -> Seq<StructuralMutation> {
    seq![
        StructuralMutation::Frozen { id: active.high.id, at_ns: active.formation_end_ns },
        StructuralMutation::Frozen { id: active.low.id, at_ns: active.formation_end_ns },
        StructuralMutation::Frozen { id: active.mid.id, at_ns: active.formation_end_ns },
    ]
}

/// Mutations announcing a range's three levels.
pub open spec fn announce_range(active: ActiveRange, created: bool) -> Seq<StructuralMutation> {
    if created {
        seq![
            StructuralMutation::Created(StructuralObject::Level(active.high)),
            StructuralMutation::Created(StructuralObject::Level(active.low)),
            StructuralMutation::Created(StructuralObject::Level(active.mid)),
        ]
    } else {
        seq![
            StructuralMutation::Updated(StructuralObject::Level(active.high)),
            StructuralMutation::Updated(StructuralObject::Level(active.low)),
            StructuralMutation::Updated(StructuralObject::Level(active.mid)),
        ]
    }
}

/// Exclusive group shared by the three levels of one range.
pub open spec fn range_group(session_open_ns: i64, duration_ns: i64) -> u64 {
    rotate_left_spec(time_bits(session_open_ns), 21) ^ time_bits(duration_ns)
}

/// The range created by the first bar of a session.
pub open spec fn new_range(
    ids: IdSequence,
    instrument: InstrumentId,
    price_space: PriceSpace,
    calendar_id: crate::data_plane::CalendarId,
    derivation_version: DerivationVersion,
    duration_ns: i64,
    session: Session,
    bar: CanonicalBar,
    timeframe: Timeframe,
) -> ActiveRange {
    let seed = LevelSeed {
        id: next_id_spec(ids),
        instrument,
        price_space,
        kind: LevelKind::OpeningRangeHigh,
        family: LevelFamily::OpeningRange,
        role: LevelRole::UpperBoundary,
        price: bar.high,
        now_ns: bar.ts_close_ns,
        producer: ProducerId(2),
        calendar_id,
        derivation_version,
        timeframe,
        epoch_ns: session.open_ns,
        exclusive_group: range_group(session.open_ns, duration_ns),
        ordinal: 0,
        first_sequence: JournalSequence(bar.first_sequence),
        last_sequence: JournalSequence(bar.last_sequence),
    };
    let end = session.open_ns + duration_ns;
    ActiveRange {
        session_open_ns: session.open_ns,
        formation_end_ns: if end < session.close_ns {
            end as i64
        } else {
            session.close_ns
        },
        high: level_spec(seed),
        low: level_spec(
            LevelSeed {
                id: next_id_spec(advance_spec(ids)),
                kind: LevelKind::OpeningRangeLow,
                role: LevelRole::LowerBoundary,
                price: bar.low,
                ordinal: 1,
                ..seed
            },
        ),
        mid: level_spec(
            LevelSeed {
                id: next_id_spec(advance_spec(advance_spec(ids))),
                kind: LevelKind::OpeningRangeMid,
                role: LevelRole::Center,
                price: midpoint_spec(bar.low as int, bar.high as int) as i64,
                ordinal: 2,
                ..seed
            },
        ),
        frozen: false,
    }
}

impl OpeningRangeProducer {
    /// Instrument this producer serves.
    pub closed spec fn instrument_spec(&self) -> InstrumentId {
        self.instrument
    }

    /// The current range, if any.
    pub closed spec fn active_spec(&self) -> Option<ActiveRange> {
        self.active
    }

    /// Open time of the last accepted bar.
    pub closed spec fn last_open_spec(&self) -> Option<i64> {
        self.last_bar_open_ns
    }

    /// Identity allocator state.
    pub closed spec fn ids_spec(&self) -> IdSequence {
        self.ids
    }

    /// The producer's invariant.
    pub closed spec fn wf(&self) -> bool {
        &&& self.calendar.wf()
        &&& self.spec.duration_ns > 0
        &&& self.ids.producer == ProducerId(2)
        &&& self.ids.instrument == self.instrument
        &&& self.active matches Some(a) ==> a.low.price <= a.high.price
    }

    /// The calendar this producer reads.
    pub closed spec fn calendar_spec(&self) -> SessionCalendar {
        *self.calendar
    }

    /// Why the producer refuses `bar`, if it does.
    pub open spec fn check(&self, bar: CanonicalBar) -> Option<ProducerError> {
        if stream_check(bar, self.instrument_spec(), self.last_open_spec()) is Some {
            stream_check(bar, self.instrument_spec(), self.last_open_spec())
        } else if calendar_session(self.calendar_spec(), self.instrument_spec(), bar.ts_open_ns) is None {
            Some(ProducerError::OutsideSession { bar_open_ns: bar.ts_open_ns })
        } else {
            None
        }
    }


    /// State after the expiry of a range from an earlier session.
    closed spec fn after_expiry(&self, session: Session, bar: CanonicalBar) -> (OpeningRangeProducer, Seq<
        StructuralMutation,
    >) {
        let accepted = OpeningRangeProducer { last_bar_open_ns: Some(bar.ts_open_ns), ..*self };
        match self.active {
            Some(a) => if a.session_open_ns != session.open_ns {
                (OpeningRangeProducer { active: None, ..accepted }, expire_range(a, session.open_ns))
            } else {
                (accepted, Seq::empty())
            },
            None => (accepted, Seq::empty()),
        }
    }

    /// Whether `bar`, once accepted, creates its session's range: no range
    /// is left in progress for the session and the bar opens inside the
    /// window. Only then does the producer read the bar's timeframe.
    pub closed spec fn creates_range(&self, bar: CanonicalBar) -> bool {
        match calendar_session(self.calendar_spec(), self.instrument_spec(), bar.ts_open_ns) {
            Some(session) => self.after_expiry(session, bar).0.active is None && bar.ts_open_ns
                < session.open_ns + self.spec.duration_ns,
            None => false,
        }
    }

    /// State after a range is created for the session, when due.
    closed spec fn after_creation(&self, session: Session, bar: CanonicalBar) -> (OpeningRangeProducer, Seq<
        StructuralMutation,
    >) {
        if self.active is None && bar.ts_open_ns < session.open_ns + self.spec.duration_ns {
            let created = new_range(
                self.ids,
                self.instrument,
                self.price_space,
                self.calendar.id_spec(),
                self.derivation_version,
                self.spec.duration_ns,
                session,
                bar,
                timeframe_from_code_spec(bar.timeframe).unwrap(),
            );
            (
                OpeningRangeProducer {
                    active: Some(created),
                    ids: advance_spec(advance_spec(advance_spec(self.ids))),
                    ..*self
                },
                announce_range(created, true),
            )
        } else {
            (*self, Seq::empty())
        }
    }

    /// State after the range reacts to the bar: it freezes when the window
    /// has closed, and otherwise widens to the bar's extremes.
    closed spec fn after_progress(&self, bar: CanonicalBar) -> (OpeningRangeProducer, Seq<StructuralMutation>) {
        match self.active {
            None => (*self, Seq::empty()),
            Some(a) => if a.frozen {
                (*self, Seq::empty())
            } else if bar.ts_open_ns >= a.formation_end_ns {
                (OpeningRangeProducer { active: Some(ActiveRange { frozen: true, ..a }), ..*self }, freeze_range(a))
            } else {
                let high = if bar.high > a.high.price {
                    bar.high
                } else {
                    a.high.price
                };
                let low = if bar.low < a.low.price {
                    bar.low
                } else {
                    a.low.price
                };
                if high != a.high.price || low != a.low.price {
                    let moved = ActiveRange {
                        high: moved_level(a.high, high, bar),
                        low: moved_level(a.low, low, bar),
                        mid: moved_level(a.mid, midpoint_spec(low as int, high as int) as i64, bar),
                        ..a
                    };
                    (OpeningRangeProducer { active: Some(moved), ..*self }, announce_range(moved, false))
                } else {
                    (*self, Seq::empty())
                }
            },
        }
    }

    /// State and mutations after an accepted bar in `session`.
    pub closed spec fn step(&self, bar: CanonicalBar, session: Session) -> (OpeningRangeProducer, Seq<
        StructuralMutation,
    >) {
        let (first, expired) = self.after_expiry(session, bar);
        let (second, created) = first.after_creation(session, bar);
        let (third, progressed) = second.after_progress(bar);
        (third, expired + created + progressed)
    }

    /// State and mutations after an accepted bar.
    pub closed spec fn next(&self, bar: CanonicalBar) -> (OpeningRangeProducer, Seq<StructuralMutation>) {
        self.step(bar, calendar_session(self.calendar_spec(), self.instrument_spec(), bar.ts_open_ns).unwrap())
    }

    /// A producer for `instrument`; refuses a non-positive window.
    pub fn new(
        instrument: InstrumentId,
        price_space: PriceSpace,
        calendar: Arc<SessionCalendar>,
        derivation_version: DerivationVersion,
        spec: OpeningRangeSpec,
    ) -> (result: Result<OpeningRangeProducer, ProducerError>)
        requires
            calendar.wf(),
        ensures
            match result {
                Ok(producer) => {
                    &&& spec.duration_ns > 0
                    &&& producer.wf()
                    &&& producer.instrument_spec() == instrument
                    &&& producer.active_spec() is None
                    &&& producer.last_open_spec() is None
                    &&& producer.ids_spec() == (IdSequence { producer: ProducerId(2), instrument, next: 1 })
                    &&& producer.calendar_spec() == *calendar
                },
                Err(error) => spec.duration_ns <= 0 && error == ProducerError::InvalidOpeningRange,
            },
    {
        if spec.duration_ns <= 0 {
            return Err(ProducerError::InvalidOpeningRange);
        }
        Ok(
            OpeningRangeProducer {
                instrument,
                price_space,
                calendar,
                derivation_version,
                spec,
                ids: IdSequence::new(ProducerId(2), instrument),
                active: None,
                last_bar_open_ns: None,
            },
        )
    }

    /// Feeds one bar. A refused bar changes nothing; an accepted bar appends
    /// the producer's mutations to `output`.
    pub fn on_bar(&mut self, bar: &CanonicalBar, output: &mut Vec<StructuralMutation>) -> (result: Result<
        (),
        ProducerError,
    >)
        requires
            old(self).wf(),
            old(self).check(*bar) is None && old(self).creates_range(*bar) ==> timeframe_from_code_spec(bar.timeframe) is Some,
        ensures
            final(self).wf(),
            match result {
                Err(error) => {
                    &&& old(self).check(*bar) == Some(error)
                    &&& *final(self) == *old(self)
                    &&& final(output)@ == old(output)@
                },
                Ok(()) => {
                    &&& old(self).check(*bar) is None
                    &&& final(self).instrument_spec() == old(self).instrument_spec()
                    &&& final(self).calendar_spec() == old(self).calendar_spec()
                    &&& final(self).last_open_spec() == Some(bar.ts_open_ns)
                    &&& *final(self) == old(self).next(*bar).0
                    &&& final(output)@ == old(output)@ + old(self).next(*bar).1
                },
            },
    {
        check_stream(bar, self.instrument, self.last_bar_open_ns)?;
        let session = match find_session(&self.calendar, self.instrument, bar.ts_open_ns) {
            Some(session) => session,
            None => {
                return Err(ProducerError::OutsideSession { bar_open_ns: bar.ts_open_ns });
            },
        };
        let ghost start = *self;
        let ghost start_output = output@;
        let ghost first = start.after_expiry(session, *bar);
        self.expire_stale(session, bar, output);
        proof {
            assert(start.creates_range(*bar) == (first.0.active is None && bar.ts_open_ns < session.open_ns
                + start.spec.duration_ns));
        }
        let ghost second = first.0.after_creation(session, *bar);
        self.create_if_due(session, bar, output);
        let ghost third = second.0.after_progress(*bar);
        self.progress(bar, output);
        proof {
            assert(output@ =~= start_output + (first.1 + second.1 + third.1));
        }
        Ok(())
    }

    /// Accepts the bar and expires a range left from an earlier session.
    fn expire_stale(&mut self, session: Session, bar: &CanonicalBar, output: &mut Vec<StructuralMutation>)
        requires
            old(self).wf(),
        ensures
            final(self).wf(),
            *final(self) == old(self).after_expiry(session, *bar).0,
            final(output)@ == old(output)@ + old(self).after_expiry(session, *bar).1,
    {
        self.last_bar_open_ns = Some(bar.ts_open_ns);
        let stale = match &self.active {
            Some(active) => active.session_open_ns != session.open_ns,
            None => false,
        };
        if stale {
            let ghost start_output = output@;
            let active = self.active.unwrap();
            if !active.frozen {
                output.push(StructuralMutation::Frozen { id: active.high.id, at_ns: active.formation_end_ns });
                output.push(StructuralMutation::Frozen { id: active.low.id, at_ns: active.formation_end_ns });
                output.push(StructuralMutation::Frozen { id: active.mid.id, at_ns: active.formation_end_ns });
            }
            output.push(StructuralMutation::Expired { id: active.high.id, at_ns: session.open_ns });
            output.push(StructuralMutation::Expired { id: active.low.id, at_ns: session.open_ns });
            output.push(StructuralMutation::Expired { id: active.mid.id, at_ns: session.open_ns });
            self.active = None;
            proof {
                assert(output@ =~= start_output + expire_range(active, session.open_ns));
            }
        } else {
            proof {
                assert(output@ =~= old(output)@ + Seq::<StructuralMutation>::empty());
            }
        }
    }

    /// Creates the session's range when the bar opens inside its window.
    fn create_if_due(&mut self, session: Session, bar: &CanonicalBar, output: &mut Vec<StructuralMutation>)
        requires
            old(self).wf(),
            old(self).active is None && bar.ts_open_ns < session.open_ns + old(self).spec.duration_ns
                ==> timeframe_from_code_spec(bar.timeframe) is Some,
            bar.low <= bar.high,
        ensures
            final(self).wf(),
            *final(self) == old(self).after_creation(session, *bar).0,
            final(output)@ == old(output)@ + old(self).after_creation(session, *bar).1,
    {
        let window_end: i128 = session.open_ns as i128 + self.spec.duration_ns as i128;
        if self.active.is_none() && (bar.ts_open_ns as i128) < window_end {
            let ghost start_output = output@;
            let session_open_ns = session.open_ns;
            let group = rotate_left(to_bits(session_open_ns), 21) ^ to_bits(self.spec.duration_ns);
            let timeframe = Timeframe::from_code(bar.timeframe).unwrap();
            let seed = LevelSeed {
                id: self.ids.take(),
                instrument: self.instrument,
                price_space: self.price_space,
                kind: LevelKind::OpeningRangeHigh,
                family: LevelFamily::OpeningRange,
                role: LevelRole::UpperBoundary,
                price: bar.high,
                now_ns: bar.ts_close_ns,
                producer: ProducerId(2),
                calendar_id: self.calendar.id(),
                derivation_version: self.derivation_version,
                timeframe,
                epoch_ns: session_open_ns,
                exclusive_group: group,
                ordinal: 0,
                first_sequence: JournalSequence(bar.first_sequence),
                last_sequence: JournalSequence(bar.last_sequence),
            };
            let high = level(seed);
            let low = level(
                LevelSeed {
                    id: self.ids.take(),
                    kind: LevelKind::OpeningRangeLow,
                    role: LevelRole::LowerBoundary,
                    price: bar.low,
                    ordinal: 1,
                    ..seed
                },
            );
            let mid = level(
                LevelSeed {
                    id: self.ids.take(),
                    kind: LevelKind::OpeningRangeMid,
                    role: LevelRole::Center,
                    price: midpoint(bar.low, bar.high),
                    ordinal: 2,
                    ..seed
                },
            );
            output.push(StructuralMutation::Created(StructuralObject::Level(high)));
            output.push(StructuralMutation::Created(StructuralObject::Level(low)));
            output.push(StructuralMutation::Created(StructuralObject::Level(mid)));
            let formation_end_ns: i64 = if window_end < session.close_ns as i128 {
                window_end as i64
            } else {
                session.close_ns
            };
            let created = ActiveRange { session_open_ns, formation_end_ns, high, low, mid, frozen: false };
            self.active = Some(created);
            proof {
                assert(created == new_range(
                    old(self).ids,
                    self.instrument,
                    self.price_space,
                    self.calendar.id_spec(),
                    self.derivation_version,
                    self.spec.duration_ns,
                    session,
                    *bar,
                    timeframe_from_code_spec(bar.timeframe).unwrap(),
                ));
                assert(output@ =~= start_output + announce_range(created, true));
            }
        } else {
            proof {
                assert(output@ =~= old(output)@ + Seq::<StructuralMutation>::empty());
            }
        }
    }

    /// Freezes the range when its window has closed, otherwise widens it to
    /// the bar's extremes.
    fn progress(&mut self, bar: &CanonicalBar, output: &mut Vec<StructuralMutation>)
        requires
            old(self).wf(),
        ensures
            final(self).wf(),
            *final(self) == old(self).after_progress(*bar).0,
            final(output)@ == old(output)@ + old(self).after_progress(*bar).1,
    {
        let ghost start_output = output@;
        if self.active.is_some() {
            let active = self.active.unwrap();
            if !active.frozen {
                if bar.ts_open_ns >= active.formation_end_ns {
                    self.active = Some(ActiveRange { frozen: true, ..active });
                    output.push(StructuralMutation::Frozen { id: active.high.id, at_ns: active.formation_end_ns });
                    output.push(StructuralMutation::Frozen { id: active.low.id, at_ns: active.formation_end_ns });
                    output.push(StructuralMutation::Frozen { id: active.mid.id, at_ns: active.formation_end_ns });
                    proof {
                        assert(output@ =~= start_output + freeze_range(active));
                    }
                    return;
                }
                let next_high = if bar.high > active.high.price {
                    bar.high
                } else {
                    active.high.price
                };
                let next_low = if bar.low < active.low.price {
                    bar.low
                } else {
                    active.low.price
                };
                if next_high != active.high.price || next_low != active.low.price {
                    let mut moved = active;
                    update_level(&mut moved.high, next_high, bar);
                    update_level(&mut moved.low, next_low, bar);
                    update_level(&mut moved.mid, midpoint(next_low, next_high), bar);
                    output.push(StructuralMutation::Updated(StructuralObject::Level(moved.high)));
                    output.push(StructuralMutation::Updated(StructuralObject::Level(moved.low)));
                    output.push(StructuralMutation::Updated(StructuralObject::Level(moved.mid)));
                    self.active = Some(moved);
                    proof {
                        assert(output@ =~= start_output + announce_range(moved, false));
                    }
                    return;
                }
            }
        }
        proof {
            assert(output@ =~= start_output + Seq::<StructuralMutation>::empty());
        }
    }
}

/// The first accepted bar of a session that creates the session's range
/// opens it at that bar: its high and low levels stand at the bar's high and
/// low, its mid halfway between them rounded toward the low, and the range
/// is forming.
pub proof fn lemma_range_opens_at_first_bar(producer: OpeningRangeProducer, bar: CanonicalBar)
    requires
        producer.wf(),
        producer.check(bar) is None,
        producer.creates_range(bar),
    ensures
        producer.next(bar).0.active_spec() matches Some(b) && {
            &&& b.high.price == bar.high
            &&& b.low.price == bar.low
            &&& b.mid.price == bar.low + (bar.high - bar.low) / 2
            &&& !b.frozen
            &&& b.session_open_ns == calendar_session(producer.calendar_spec(), producer.instrument_spec(), bar.ts_open_ns).unwrap().open_ns
        },
{
    let session = calendar_session(producer.calendar_spec(), producer.instrument_spec(), bar.ts_open_ns).unwrap();
    assert(session_holds(session, producer.instrument_spec(), bar.ts_open_ns, SessionSegment::MainReference));
    let first = producer.after_expiry(session, bar).0;
    let second = first.after_creation(session, bar).0;
    let created = second.active.unwrap();
    assert(created.high.price == bar.high && created.low.price == bar.low);
    assert(bar.ts_open_ns < created.formation_end_ns);
}

/// While a session's range is forming, an accepted bar of that session
/// inside the formation window widens the range to the bar's extremes: the
/// low becomes the lower of the range's low and the bar's low, the high the
/// higher of the range's high and the bar's high, and when either moves the
/// mid moves halfway between them, rounded toward the low. The range keeps
/// forming, in the same session and window.
pub proof fn lemma_forming_range_widens(producer: OpeningRangeProducer, bar: CanonicalBar)
    requires
        producer.wf(),
        producer.check(bar) is None,
        producer.active_spec() matches Some(a) && !a.frozen && a.session_open_ns == calendar_session(
            producer.calendar_spec(),
            producer.instrument_spec(),
            bar.ts_open_ns,
        ).unwrap().open_ns && bar.ts_open_ns < a.formation_end_ns,
    ensures
        producer.next(bar).0.active_spec() matches Some(b) && {
            let a = producer.active_spec().unwrap();
            &&& b.low.price == (if bar.low < a.low.price { bar.low } else { a.low.price })
            &&& b.high.price == (if bar.high > a.high.price { bar.high } else { a.high.price })
            &&& (b.low.price != a.low.price || b.high.price != a.high.price) ==> b.mid.price == b.low.price + (
            b.high.price - b.low.price) / 2
            &&& (b.low.price == a.low.price && b.high.price == a.high.price) ==> b.mid.price == a.mid.price
            &&& !b.frozen
            &&& b.session_open_ns == a.session_open_ns
            &&& b.formation_end_ns == a.formation_end_ns
        },
{
}

/// Once a bar of the session opens at or after the end of the formation
/// window, the range freezes where it stands; a frozen range no longer
/// moves for later bars of its session.
pub proof fn lemma_range_freezes_after_window(producer: OpeningRangeProducer, bar: CanonicalBar)
    requires
        producer.wf(),
        producer.check(bar) is None,
        producer.active_spec() matches Some(a) && a.session_open_ns == calendar_session(
            producer.calendar_spec(),
            producer.instrument_spec(),
            bar.ts_open_ns,
        ).unwrap().open_ns && (a.frozen || bar.ts_open_ns >= a.formation_end_ns),
    ensures
        producer.next(bar).0.active_spec() matches Some(b) && {
            let a = producer.active_spec().unwrap();
            &&& b.frozen
            &&& b.high == a.high
            &&& b.low == a.low
            &&& b.mid == a.mid
        },
{
}

} // verus!
