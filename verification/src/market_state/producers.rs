//! Level producers: deterministic state machines that turn canonical bars into
//! structural mutations.

pub mod opening_range;
pub mod range_projection;
pub mod sessions;

use super::contracts::{
    LevelFamily, LevelId, LevelKind, LevelMetrics, LevelProvenance, LevelRole, LevelState,
    PriceSpace, ProducerId, StructuralLevel, level_id_bits,
};
use crate::data_plane::{
    CalendarId, CanonicalBar, DerivationVersion, InstrumentId, JournalSequence, Session,
    SessionCalendar, SessionSegment, Timeframe, session_holds,
};
use vstd::prelude::*;

verus! {

/// Why a producer refused a bar or a configuration.
#[derive(Clone, Copy, Debug, PartialEq, Eq, Structural)]
pub enum ProducerError {
    WrongInstrument { expected: InstrumentId, actual: InstrumentId },
    UncommittedBar,
    MissingDerivationVersion,
    InvalidBar,
    UnknownTimeframe(u16),
    OutsideSession { bar_open_ns: i64 },
    OutOfOrder { previous_open_ns: i64, actual_open_ns: i64 },
    RevisionRequiresRederivation,
    InvalidOpeningRange,
    InvalidRangeProjection,
}

/// Saturating successor.
pub open spec fn saturating_next(value: u64) -> u64 {
    if value == u64::MAX {
        u64::MAX
    } else {
        (value + 1) as u64
    }
}

/// Producer-local identity allocator for one instrument.
#[derive(Clone, Copy, Debug, PartialEq, Eq, Structural)]
pub struct IdSequence {
    pub producer: ProducerId,
    pub instrument: InstrumentId,
    pub next: u64,
}

/// The identity a sequence hands out next.
pub open spec fn next_id_spec(ids: IdSequence) -> LevelId {
    LevelId(level_id_bits(ids.producer.0, ids.instrument.0, ids.next))
}

/// The sequence after handing out one identity.
pub open spec fn advance_spec(ids: IdSequence) -> IdSequence {
    IdSequence { next: saturating_next(ids.next), ..ids }
}

impl IdSequence {
    /// A sequence whose first identity has local number one.
    pub fn new(producer: ProducerId, instrument: InstrumentId) -> (ids: IdSequence)
        ensures
            ids == (IdSequence { producer, instrument, next: 1 }),
    {
        IdSequence { producer, instrument, next: 1 }
    }

    /// Hands out the next identity.
    pub fn take(&mut self) -> (id: LevelId)
        ensures
            id == next_id_spec(*old(self)),
            *final(self) == advance_spec(*old(self)),
    {
        let id = LevelId::from_parts(self.producer, self.instrument, self.next);
        self.next = if self.next == u64::MAX {
            u64::MAX
        } else {
            self.next + 1
        };
        id
    }
}

/// Everything a new level is made from.
#[derive(Clone, Copy, Debug, PartialEq, Eq, Structural)]
pub struct LevelSeed {
    pub id: LevelId,
    pub instrument: InstrumentId,
    pub price_space: PriceSpace,
    pub kind: LevelKind,
    pub family: LevelFamily,
    pub role: LevelRole,
    pub price: i64,
    pub now_ns: i64,
    pub producer: ProducerId,
    pub calendar_id: CalendarId,
    pub derivation_version: DerivationVersion,
    pub timeframe: Timeframe,
    pub epoch_ns: i64,
    pub exclusive_group: u64,
    pub ordinal: u16,
    pub first_sequence: JournalSequence,
    pub last_sequence: JournalSequence,
}

/// A fresh developing level grown from a seed.
pub open spec fn level_spec(seed: LevelSeed) -> StructuralLevel {
    StructuralLevel {
        id: seed.id,
        instrument_id: seed.instrument,
        price_space: seed.price_space,
        kind: seed.kind,
        family: seed.family,
        role: seed.role,
        price: seed.price,
        created_at_ns: seed.now_ns,
        effective_at_ns: seed.now_ns,
        updated_at_ns: seed.now_ns,
        state: LevelState::Developing,
        provenance: LevelProvenance {
            producer_id: seed.producer,
            first_sequence: seed.first_sequence,
            last_sequence: seed.last_sequence,
            derivation_version: seed.derivation_version,
            calendar_id: seed.calendar_id,
            timeframe: Some(seed.timeframe),
            epoch_ns: seed.epoch_ns,
            exclusive_group: seed.exclusive_group,
            ordinal: seed.ordinal,
        },
        metrics: LevelMetrics { age_bars: 0, velocity_atr_ppm: 0 },
    }
}

/// A fresh developing level grown from a seed.
pub fn level(seed: LevelSeed) -> (result: StructuralLevel)
    ensures
        result == level_spec(seed),
{
    StructuralLevel {
        id: seed.id,
        instrument_id: seed.instrument,
        price_space: seed.price_space,
        kind: seed.kind,
        family: seed.family,
        role: seed.role,
        price: seed.price,
        created_at_ns: seed.now_ns,
        effective_at_ns: seed.now_ns,
        updated_at_ns: seed.now_ns,
        state: LevelState::Developing,
        provenance: LevelProvenance {
            producer_id: seed.producer,
            first_sequence: seed.first_sequence,
            last_sequence: seed.last_sequence,
            derivation_version: seed.derivation_version,
            calendar_id: seed.calendar_id,
            timeframe: Some(seed.timeframe),
            epoch_ns: seed.epoch_ns,
            exclusive_group: seed.exclusive_group,
            ordinal: seed.ordinal,
        },
        metrics: LevelMetrics { age_bars: 0, velocity_atr_ppm: 0 },
    }
}

/// Saturating successor of an age in bars.
pub open spec fn older(age: u32) -> u32 {
    if age == u32::MAX {
        u32::MAX
    } else {
        (age + 1) as u32
    }
}

/// A level moved to `price` by `bar`: the update time, the last sequence and
/// the age follow the bar.
pub open spec fn moved_level(level: StructuralLevel, price: i64, bar: CanonicalBar) -> StructuralLevel {
    StructuralLevel {
        price,
        updated_at_ns: bar.ts_close_ns,
        provenance: LevelProvenance { last_sequence: JournalSequence(bar.last_sequence), ..level.provenance },
        metrics: LevelMetrics { age_bars: older(level.metrics.age_bars), ..level.metrics },
        ..level
    }
}

/// Moves a level to `price` as of `bar`.
pub fn update_level(level: &mut StructuralLevel, price: i64, bar: &CanonicalBar)
    ensures
        *final(level) == moved_level(*old(level), price, *bar),
{
    level.price = price;
    level.updated_at_ns = bar.ts_close_ns;
    level.provenance.last_sequence = JournalSequence(bar.last_sequence);
    level.metrics.age_bars = if level.metrics.age_bars == u32::MAX {
        u32::MAX
    } else {
        level.metrics.age_bars + 1
    };
}

/// What the shared bar checks say about a bar for `instrument`.
pub open spec fn bar_check(bar: CanonicalBar, instrument: InstrumentId) -> Option<ProducerError> {
    if bar.instrument_id != instrument.0 {
        Some(ProducerError::WrongInstrument { expected: instrument, actual: InstrumentId(bar.instrument_id) })
    } else if bar.first_sequence == 0 || bar.last_sequence < bar.first_sequence {
        Some(ProducerError::UncommittedBar)
    } else if bar.derivation_version == 0 {
        Some(ProducerError::MissingDerivationVersion)
    } else if bar.ts_open_ns >= bar.ts_close_ns || bar.low > bar.high || bar.open < bar.low
        || bar.open > bar.high || bar.close < bar.low || bar.close > bar.high {
        Some(ProducerError::InvalidBar)
    } else {
        None
    }
}

/// Checks a bar's identity, commitment, derivation and OHLC geometry.
pub fn validate_bar(bar: &CanonicalBar, instrument: InstrumentId) -> (result: Result<(), ProducerError>)
    ensures
        match bar_check(*bar, instrument) {
            Some(error) => result == Err::<(), ProducerError>(error),
            None => result is Ok,
        },
{
    if bar.instrument_id != instrument.get() {
        return Err(
            ProducerError::WrongInstrument { expected: instrument, actual: InstrumentId(bar.instrument_id) },
        );
    }
    if bar.first_sequence == 0 || bar.last_sequence < bar.first_sequence {
        return Err(ProducerError::UncommittedBar);
    }
    if bar.derivation_version == 0 {
        return Err(ProducerError::MissingDerivationVersion);
    }
    if bar.ts_open_ns >= bar.ts_close_ns || bar.low > bar.high || bar.open < bar.low || bar.open
        > bar.high || bar.close < bar.low || bar.close > bar.high {
        return Err(ProducerError::InvalidBar);
    }
    Ok(())
}

/// What the checks every producer makes before its own logic say about a bar:
/// the shared bar checks, then revisions, then ordering against the last bar.
pub open spec fn stream_check(bar: CanonicalBar, instrument: InstrumentId, last_open: Option<i64>) -> Option<
    ProducerError,
> {
    if bar_check(bar, instrument) is Some {
        bar_check(bar, instrument)
    } else if bar.revision > 0 {
        Some(ProducerError::RevisionRequiresRederivation)
    } else {
        match last_open {
            Some(previous) => if bar.ts_open_ns <= previous {
                Some(ProducerError::OutOfOrder { previous_open_ns: previous, actual_open_ns: bar.ts_open_ns })
            } else {
                None
            },
            None => None,
        }
    }
}

/// The checks every producer makes before its own logic.
pub fn check_stream(bar: &CanonicalBar, instrument: InstrumentId, last_open: Option<i64>) -> (result:
    Result<(), ProducerError>)
    ensures
        match stream_check(*bar, instrument, last_open) {
            Some(error) => result == Err::<(), ProducerError>(error),
            None => result is Ok,
        },
{
    validate_bar(bar, instrument)?;
    if bar.revision > 0 {
        return Err(ProducerError::RevisionRequiresRederivation);
    }
    if let Some(previous) = last_open {
        if bar.ts_open_ns <= previous {
            return Err(ProducerError::OutOfOrder { previous_open_ns: previous, actual_open_ns: bar.ts_open_ns });
        }
    }
    Ok(())
}

/// The main reference session of `instrument` in `calendar` that holds
/// `at_ns`, if any.
pub open spec fn calendar_session(calendar: SessionCalendar, instrument: InstrumentId, at_ns: i64) -> Option<
    Session,
> {
    if exists|s: Session|
        calendar.sessions_spec().contains(s) && session_holds(s, instrument, at_ns, SessionSegment::MainReference) {
        Some(
            choose|s: Session|
                calendar.sessions_spec().contains(s) && session_holds(
                    s,
                    instrument,
                    at_ns,
                    SessionSegment::MainReference,
                ),
        )
    } else {
        None
    }
}

/// The main reference session of `instrument` holding `at_ns`: the
/// calendar's answer is the session the specification names.
pub fn find_session(calendar: &SessionCalendar, instrument: InstrumentId, at_ns: i64) -> (found: Option<Session>)
    requires
        calendar.wf(),
    ensures
        found == calendar_session(*calendar, instrument, at_ns),
{
    let found = calendar.session_at(instrument, at_ns, SessionSegment::MainReference);
    proof {
        match found {
            Some(session) => {
                let chosen = calendar_session(*calendar, instrument, at_ns).unwrap();
                calendar.lemma_unique_session(session, chosen, instrument, at_ns, SessionSegment::MainReference);
            },
            None => {
                if exists|s: Session|
                    calendar.sessions_spec().contains(s) && session_holds(
                        s,
                        instrument,
                        at_ns,
                        SessionSegment::MainReference,
                    ) {
                    let s = choose|s: Session|
                        calendar.sessions_spec().contains(s) && session_holds(
                            s,
                            instrument,
                            at_ns,
                            SessionSegment::MainReference,
                        );
                    let i = choose|i: int| 0 <= i < calendar.sessions_spec().len() && calendar.sessions_spec()[i] == s;
                    assert(session_holds(calendar.sessions_spec()[i], instrument, at_ns, SessionSegment::MainReference));
                }
            },
        }
    }
    found
}

/// Midpoint of `[low, high]` rounded toward `low`.
pub open spec fn midpoint_spec(low: int, high: int) -> int {
    low + (high - low) / 2
}

/// Midpoint of `[low, high]` rounded toward `low`, computed without overflow.
pub fn midpoint(low: i64, high: i64) -> (mid: i64)
    requires
        low <= high,
    ensures
        mid == midpoint_spec(low as int, high as int),
        low <= mid <= high,
{
    let half: i128 = (high as i128 - low as i128) / 2;
    (low as i128 + half) as i64
}

/// Rotates the bits of `value` left by `shift`.
pub open spec fn rotate_left_spec(value: u64, shift: u64) -> u64 {
    ((value << shift) | (value >> ((64 - shift) as u64))) as u64
}

/// Rotates the bits of `value` left by `shift` (between 1 and 63).
pub fn rotate_left(value: u64, shift: u64) -> (rotated: u64)
    requires
        0 < shift < 64,
    ensures
        rotated == rotate_left_spec(value, shift),
{
    (value << shift) | (value >> (64 - shift))
}

/// Bit pattern of a signed time.
pub open spec fn time_bits(value: i64) -> u64 {
    value as u64
}

/// Bit pattern of a signed time.
pub fn to_bits(value: i64) -> (bits: u64)
    ensures
        bits == time_bits(value),
{
    value as u64
}

} // verus!
