//! Projection of committed market events into the desk's per-instrument state:
//! reference values, venue quotes and bar timelines, published as immutable
//! snapshots that share every series a batch left alone.

use super::{
    BarTimeline, IndexMarketSnapshot, MarketInstrument, MarketProjectorError, MarketProjectorHealth,
    ReferenceValueSnapshot, VenueQuoteSnapshot, timeframe_slot, timeframe_slot_spec, upserted,
};
use crate::data_plane::{
    CanonicalBar, DerivationVersion, EventKind, InstrumentId, JournalSequence, SourceId, StreamId, Timeframe,
    timeframe_code_spec, timeframe_from_code_spec,
};
use crate::operating::snapshot::{Availability, DeskSnapshot, OperatingMode, ValueMeta, has_value_spec};
use std::sync::Arc;
use vstd::prelude::*;

verus! {

/// Most instruments one projector serves.
pub const MAX_DESK_INSTRUMENTS: usize = 64;

/// How an event's clock was obtained.
#[derive(Clone, Copy, Debug, PartialEq, Eq, Structural)]
pub enum TimeQuality {
    ObservedLive,
    ProviderDelayed,
    VerifiedPublication,
    EstimatedHistorical,
    Unknown,
}

/// The parts of a committed canonical event the desk projection reads.
#[derive(Clone, Copy, Debug)]
pub struct MarketEvent {
    pub journal_sequence: JournalSequence,
    /// Family of the event; `None` when its kind code did not decode.
    pub kind: Option<EventKind>,
    pub instrument_id: InstrumentId,
    pub source: SourceId,
    pub stream: StreamId,
    pub ts_event_ns: i64,
    pub ts_received_ns: i64,
    pub ts_effective_ns: i64,
    pub time_quality: TimeQuality,
    pub flags: u32,
    /// Payload: a reference value in slot 0; bid, ask and midpoint in slots
    /// 0 to 2; or open, high, low, close, bar open time and timeframe code.
    pub values: [i64; 6],
}

/// What the data plane's bar aggregator reported for a batch: the bars it
/// emitted up to the batch's watermark and the reference values it refused.
#[derive(Clone, Debug)]
pub struct BarAggregation {
    pub bars: Vec<CanonicalBar>,
    pub rejected: u64,
}

// ---------------------------------------------------------------------------
// The mathematical model of one event.
// ---------------------------------------------------------------------------

/// `value + more`, limited to `u64::MAX`.
pub open spec fn saturating_u64(value: u64, more: u64) -> u64 {
    if value + more > u64::MAX {
        u64::MAX
    } else {
        (value + more) as u64
    }
}

/// Availability of a value the projector publishes without an event.
pub open spec fn availability_for_spec(mode: OperatingMode) -> Availability {
    if mode == OperatingMode::OfflineReplay {
        Availability::Replaying
    } else {
        Availability::Live
    }
}

/// Availability of a value carried by `event`: replaying offline, else by
/// the event's clock quality.
pub open spec fn event_availability(mode: OperatingMode, event: MarketEvent) -> Availability {
    if mode == OperatingMode::OfflineReplay {
        Availability::Replaying
    } else {
        match event.time_quality {
            TimeQuality::ObservedLive => Availability::Live,
            TimeQuality::ProviderDelayed => Availability::Delayed,
            _ => Availability::Stale,
        }
    }
}

/// Metadata of a value carried by `event`.
pub open spec fn meta_of(event: MarketEvent, availability: Availability) -> ValueMeta {
    ValueMeta {
        ts_event_ns: event.ts_event_ns,
        ts_received_ns: event.ts_received_ns,
        ts_effective_ns: event.ts_effective_ns,
        journal_sequence: event.journal_sequence,
        derivation_version: DerivationVersion(0),
        source: event.source,
        stream: event.stream,
        availability,
    }
}

/// The bar an external aggregate event carries.
pub open spec fn external_bar_spec(event: MarketEvent, timeframe: Timeframe) -> CanonicalBar {
    CanonicalBar {
        ts_open_ns: event.values@[4],
        ts_close_ns: event.ts_event_ns,
        open: event.values@[0],
        high: event.values@[1],
        low: event.values@[2],
        close: event.values@[3],
        first_sequence: event.journal_sequence.0,
        last_sequence: event.journal_sequence.0,
        instrument_id: event.instrument_id.0,
        observation_count: 1,
        revision: 0,
        derivation_version: 0,
        timeframe: timeframe_code_spec(timeframe),
        flags: (event.flags & 0xffffu32) as u16,
        reserved: 0,
    }
}

/// Timeframe of an external bar event, when its code fits and decodes.
pub open spec fn bar_timeframe(event: MarketEvent) -> Option<Timeframe> {
    let code = event.values@[5];
    if 0 <= code <= u16::MAX {
        timeframe_from_code_spec(code as u16)
    } else {
        None
    }
}

/// Timeframe of series slot `t`.
pub open spec fn slot_timeframe(t: int) -> Timeframe {
    if t == 0 {
        Timeframe::M4
    } else if t == 1 {
        Timeframe::M20
    } else if t == 2 {
        Timeframe::H2
    } else {
        Timeframe::H4
    }
}

/// Instrument identities in strictly increasing order.
pub open spec fn ids_increasing(ids: Seq<InstrumentId>) -> bool {
    forall|i: int, j: int| 0 <= i < j < ids.len() ==> (#[trigger] ids[i]).0 < (#[trigger] ids[j]).0
}

/// Dense slot of `id`, if the projector serves it.
pub open spec fn slot_of(ids: Seq<InstrumentId>, id: InstrumentId) -> Option<int> {
    if exists|i: int| 0 <= i < ids.len() && ids[i] == id {
        Some(choose|i: int| 0 <= i < ids.len() && ids[i] == id)
    } else {
        None
    }
}

/// A desk market family: reference value, venue quote or external bar.
pub open spec fn market_kind(kind: Option<EventKind>) -> bool {
    kind == Some(EventKind::IndexValue) || kind == Some(EventKind::VenueQuote) || kind == Some(
        EventKind::ExternalBar,
    )
}

/// A desk market event of a served instrument.
pub open spec fn known(ids: Seq<InstrumentId>, event: MarketEvent) -> bool {
    market_kind(event.kind) && slot_of(ids, event.instrument_id) is Some
}

/// A known event the projector applies: all but an external bar whose
/// timeframe does not decode.
pub open spec fn applies(ids: Seq<InstrumentId>, event: MarketEvent) -> bool {
    known(ids, event) && (event.kind == Some(EventKind::ExternalBar) ==> bar_timeframe(event) is Some)
}

/// `event` is applied to slot `s`.
pub open spec fn applies_to(ids: Seq<InstrumentId>, event: MarketEvent, s: int) -> bool {
    applies(ids, event) && slot_of(ids, event.instrument_id) == Some(s)
}

/// The counters after one event.
pub open spec fn health_step(health: MarketProjectorHealth, ids: Seq<InstrumentId>, event: MarketEvent) -> MarketProjectorHealth {
    let seen = MarketProjectorHealth {
        events_seen: saturating_u64(health.events_seen, 1),
        last_sequence: if event.journal_sequence.0 > health.last_sequence.0 {
            event.journal_sequence
        } else {
            health.last_sequence
        },
        ..health
    };
    if event.kind is None {
        MarketProjectorHealth { invalid_events: saturating_u64(seen.invalid_events, 1), ..seen }
    } else if !market_kind(event.kind) {
        MarketProjectorHealth { ignored_events: saturating_u64(seen.ignored_events, 1), ..seen }
    } else if slot_of(ids, event.instrument_id) is None {
        MarketProjectorHealth { unknown_instruments: saturating_u64(seen.unknown_instruments, 1), ..seen }
    } else if event.kind == Some(EventKind::IndexValue) {
        MarketProjectorHealth { reference_values: saturating_u64(seen.reference_values, 1), ..seen }
    } else if event.kind == Some(EventKind::VenueQuote) {
        MarketProjectorHealth { venue_quotes: saturating_u64(seen.venue_quotes, 1), ..seen }
    } else if bar_timeframe(event) is None {
        MarketProjectorHealth { invalid_events: saturating_u64(seen.invalid_events, 1), ..seen }
    } else {
        MarketProjectorHealth { external_bars: saturating_u64(seen.external_bars, 1), ..seen }
    }
}

/// The reference value of slot `s` after one event: a reference value
/// replaces it, and an external bar replaces it with its close unless the
/// held value is present and newer.
pub open spec fn reference_step(
    reference: ReferenceValueSnapshot,
    ids: Seq<InstrumentId>,
    mode: OperatingMode,
    scale: i64,
    s: int,
    event: MarketEvent,
) -> ReferenceValueSnapshot {
    if applies_to(ids, event, s) {
        let meta = meta_of(event, event_availability(mode, event));
        if event.kind == Some(EventKind::IndexValue) {
            ReferenceValueSnapshot { value_scaled: event.values@[0], price_scale: scale, meta }
        } else if event.kind == Some(EventKind::ExternalBar) && (!has_value_spec(reference.meta.availability)
            || event.ts_event_ns >= reference.meta.ts_event_ns) {
            ReferenceValueSnapshot { value_scaled: event.values@[3], price_scale: scale, meta }
        } else {
            reference
        }
    } else {
        reference
    }
}

/// The venue quote of slot `s` after one event.
pub open spec fn venue_step(
    venue: VenueQuoteSnapshot,
    ids: Seq<InstrumentId>,
    mode: OperatingMode,
    scale: i64,
    s: int,
    event: MarketEvent,
) -> VenueQuoteSnapshot {
    if applies_to(ids, event, s) && event.kind == Some(EventKind::VenueQuote) {
        VenueQuoteSnapshot {
            bid_scaled: event.values@[0],
            ask_scaled: event.values@[1],
            midpoint_scaled: event.values@[2],
            price_scale: scale,
            meta: meta_of(event, event_availability(mode, event)),
        }
    } else {
        venue
    }
}

/// A timeline after an upsert, and whether it changed; a timeline that
/// already holds `usize::MAX` bars is left alone.
pub open spec fn timeline_upsert(bars: Seq<CanonicalBar>, bar: CanonicalBar) -> (Seq<CanonicalBar>, bool) {
    if bars.len() < usize::MAX {
        upserted(bars, bar)
    } else {
        (bars, false)
    }
}

/// The bars of slot `s`, series `t`, after one event.
pub open spec fn bars_step(bars: Seq<CanonicalBar>, ids: Seq<InstrumentId>, s: int, t: int, event: MarketEvent) -> Seq<
    CanonicalBar,
> {
    if applies_to(ids, event, s) && event.kind == Some(EventKind::ExternalBar) && bar_timeframe(event) == Some(
        slot_timeframe(t),
    ) {
        timeline_upsert(bars, external_bar_spec(event, slot_timeframe(t))).0
    } else {
        bars
    }
}

/// The newest reference-value time of the applied events, from `i64::MIN`.
pub open spec fn watermark_step(watermark: i64, ids: Seq<InstrumentId>, event: MarketEvent) -> i64 {
    if applies(ids, event) && event.kind == Some(EventKind::IndexValue) && event.ts_event_ns > watermark {
        event.ts_event_ns
    } else {
        watermark
    }
}

/// Publication time after one event: the newest receipt of an applied event.
pub open spec fn published_step(published_ns: i64, ids: Seq<InstrumentId>, event: MarketEvent) -> i64 {
    if applies(ids, event) && event.ts_received_ns > published_ns {
        event.ts_received_ns
    } else {
        published_ns
    }
}

/// Availability of a batch after one event: live once any known event is
/// live, else that of the latest known event.
pub open spec fn availability_step(
    availability: Option<Availability>,
    ids: Seq<InstrumentId>,
    mode: OperatingMode,
    event: MarketEvent,
) -> Option<Availability> {
    if known(ids, event) {
        let this = event_availability(mode, event);
        if availability == Some(Availability::Live) || this == Availability::Live {
            Some(Availability::Live)
        } else {
            Some(this)
        }
    } else {
        availability
    }
}

// ---------------------------------------------------------------------------
// The model of a batch: each component folds its step over the events.
// ---------------------------------------------------------------------------

pub open spec fn health_fold(health: MarketProjectorHealth, ids: Seq<InstrumentId>, events: Seq<MarketEvent>) -> MarketProjectorHealth
    decreases events.len(),
{
    if events.len() == 0 {
        health
    } else {
        health_step(health_fold(health, ids, events.drop_last()), ids, events.last())
    }
}

pub open spec fn reference_fold(
    reference: ReferenceValueSnapshot,
    ids: Seq<InstrumentId>,
    mode: OperatingMode,
    scale: i64,
    s: int,
    events: Seq<MarketEvent>,
) -> ReferenceValueSnapshot
    decreases events.len(),
{
    if events.len() == 0 {
        reference
    } else {
        reference_step(reference_fold(reference, ids, mode, scale, s, events.drop_last()), ids, mode, scale, s, events.last())
    }
}

pub open spec fn venue_fold(
    venue: VenueQuoteSnapshot,
    ids: Seq<InstrumentId>,
    mode: OperatingMode,
    scale: i64,
    s: int,
    events: Seq<MarketEvent>,
) -> VenueQuoteSnapshot
    decreases events.len(),
{
    if events.len() == 0 {
        venue
    } else {
        venue_step(venue_fold(venue, ids, mode, scale, s, events.drop_last()), ids, mode, scale, s, events.last())
    }
}

/// An event that quotes the venue for slot `s`.
pub open spec fn quotes_slot(ids: Seq<InstrumentId>, event: MarketEvent, s: int) -> bool {
    applies_to(ids, event, s) && event.kind == Some(EventKind::VenueQuote)
}

/// After a run of events, the venue quote of a slot is the last quote in the
/// run for that slot, read as it came: bid from the event's first value, ask
/// from its second, midpoint from its third, at the slot's price scale. A
/// run with no quote for the slot leaves its quote as it was. So an event
/// whose bid is at most its midpoint and its midpoint at most its ask yields
/// a published quote in the same order.
pub proof fn lemma_venue_quote_is_last_quote(
    venue: VenueQuoteSnapshot,
    ids: Seq<InstrumentId>,
    mode: OperatingMode,
    scale: i64,
    s: int,
    events: Seq<MarketEvent>,
)
    ensures
        (forall|k: int| 0 <= k < events.len() ==> !quotes_slot(ids, #[trigger] events[k], s)) ==> venue_fold(
            venue,
            ids,
            mode,
            scale,
            s,
            events,
        ) == venue,
        forall|k: int|
            0 <= k < events.len() && quotes_slot(ids, #[trigger] events[k], s) && (forall|j: int|
                k < j < events.len() ==> !quotes_slot(ids, #[trigger] events[j], s)) ==> {
                let quote = venue_fold(venue, ids, mode, scale, s, events);
                &&& quote.bid_scaled == events[k].values@[0]
                &&& quote.ask_scaled == events[k].values@[1]
                &&& quote.midpoint_scaled == events[k].values@[2]
                &&& quote.price_scale == scale
                &&& events[k].values@[0] <= events[k].values@[2] <= events[k].values@[1] ==> quote.bid_scaled
                    <= quote.midpoint_scaled <= quote.ask_scaled
            },
    decreases events.len(),
{
    if events.len() > 0 {
        let rest = events.drop_last();
        lemma_venue_quote_is_last_quote(venue, ids, mode, scale, s, rest);
        let last = events.len() - 1;
        assert forall|k: int|
            0 <= k < events.len() && quotes_slot(ids, #[trigger] events[k], s) && (forall|j: int|
                k < j < events.len() ==> !quotes_slot(ids, #[trigger] events[j], s)) implies {
                let quote = venue_fold(venue, ids, mode, scale, s, events);
                &&& quote.bid_scaled == events[k].values@[0]
                &&& quote.ask_scaled == events[k].values@[1]
                &&& quote.midpoint_scaled == events[k].values@[2]
                &&& quote.price_scale == scale
                &&& events[k].values@[0] <= events[k].values@[2] <= events[k].values@[1] ==> quote.bid_scaled
                    <= quote.midpoint_scaled <= quote.ask_scaled
            } by {
            if k < last {
                assert(!quotes_slot(ids, events[last], s));
                assert(rest[k] == events[k]);
                assert forall|j: int| k < j < rest.len() implies !quotes_slot(ids, #[trigger] rest[j], s) by {
                    assert(rest[j] == events[j]);
                }
            }
        }
        if forall|k: int| 0 <= k < events.len() ==> !quotes_slot(ids, #[trigger] events[k], s) {
            assert forall|k: int| 0 <= k < rest.len() implies !quotes_slot(ids, #[trigger] rest[k], s) by {
                assert(rest[k] == events[k]);
            }
            assert(!quotes_slot(ids, events[last], s));
        }
    }
}


pub open spec fn bars_fold(bars: Seq<CanonicalBar>, ids: Seq<InstrumentId>, s: int, t: int, events: Seq<MarketEvent>) -> Seq<
    CanonicalBar,
>
    decreases events.len(),
{
    if events.len() == 0 {
        bars
    } else {
        bars_step(bars_fold(bars, ids, s, t, events.drop_last()), ids, s, t, events.last())
    }
}

pub open spec fn watermark_fold(ids: Seq<InstrumentId>, events: Seq<MarketEvent>) -> i64
    decreases events.len(),
{
    if events.len() == 0 {
        i64::MIN
    } else {
        watermark_step(watermark_fold(ids, events.drop_last()), ids, events.last())
    }
}

pub open spec fn published_fold(published_ns: i64, ids: Seq<InstrumentId>, events: Seq<MarketEvent>) -> i64
    decreases events.len(),
{
    if events.len() == 0 {
        published_ns
    } else {
        published_step(published_fold(published_ns, ids, events.drop_last()), ids, events.last())
    }
}

pub open spec fn availability_fold(ids: Seq<InstrumentId>, mode: OperatingMode, events: Seq<MarketEvent>) -> Option<
    Availability,
>
    decreases events.len(),
{
    if events.len() == 0 {
        None
    } else {
        availability_step(availability_fold(ids, mode, events.drop_last()), ids, mode, events.last())
    }
}

/// Some event of the batch is applied.
pub open spec fn batch_applies(ids: Seq<InstrumentId>, events: Seq<MarketEvent>) -> bool {
    exists|i: int| 0 <= i < events.len() && applies(ids, #[trigger] events[i])
}

/// An emitted bar lands in slot `s`, series `t`.
pub open spec fn emitted_to(ids: Seq<InstrumentId>, bar: CanonicalBar, s: int, t: int) -> bool {
    slot_of(ids, InstrumentId(bar.instrument_id)) == Some(s) && timeframe_from_code_spec(bar.timeframe) == Some(
        slot_timeframe(t),
    )
}

/// The bars of slot `s`, series `t`, after the emitted bars.
pub open spec fn emitted_fold(bars: Seq<CanonicalBar>, ids: Seq<InstrumentId>, s: int, t: int, emitted: Seq<CanonicalBar>) -> Seq<
    CanonicalBar,
>
    decreases emitted.len(),
{
    if emitted.len() == 0 {
        bars
    } else {
        let before = emitted_fold(bars, ids, s, t, emitted.drop_last());
        if emitted_to(ids, emitted.last(), s, t) {
            timeline_upsert(before, emitted.last()).0
        } else {
            before
        }
    }
}

/// The counters after the emitted bars: a bar of a served instrument whose
/// timeframe does not decode is invalid.
pub open spec fn emitted_health_fold(health: MarketProjectorHealth, ids: Seq<InstrumentId>, emitted: Seq<CanonicalBar>) -> MarketProjectorHealth
    decreases emitted.len(),
{
    if emitted.len() == 0 {
        health
    } else {
        let before = emitted_health_fold(health, ids, emitted.drop_last());
        let bar = emitted.last();
        if slot_of(ids, InstrumentId(bar.instrument_id)) is Some && timeframe_from_code_spec(bar.timeframe) is None {
            MarketProjectorHealth { invalid_events: saturating_u64(before.invalid_events, 1), ..before }
        } else {
            before
        }
    }
}

/// The counters after a batch and its aggregation.
pub open spec fn batch_health(
    health: MarketProjectorHealth,
    ids: Seq<InstrumentId>,
    events: Seq<MarketEvent>,
    aggregation: BarAggregation,
) -> MarketProjectorHealth {
    let started = MarketProjectorHealth { batches: saturating_u64(health.batches, 1), ..health };
    let seen = health_fold(started, ids, events);
    let rejected = MarketProjectorHealth {
        bar_rejections: saturating_u64(seen.bar_rejections, aggregation.rejected),
        ..seen
    };
    if watermark_fold(ids, events) != i64::MIN {
        emitted_health_fold(rejected, ids, aggregation.bars@)
    } else {
        rejected
    }
}

/// The bars of slot `s`, series `t`, after a batch: the external bars, then
/// the aggregated bars when the batch carried a reference value.
pub open spec fn batch_bars(
    bars: Seq<CanonicalBar>,
    ids: Seq<InstrumentId>,
    s: int,
    t: int,
    events: Seq<MarketEvent>,
    aggregation: BarAggregation,
) -> Seq<CanonicalBar> {
    let after_events = bars_fold(bars, ids, s, t, events);
    if watermark_fold(ids, events) != i64::MIN {
        emitted_fold(after_events, ids, s, t, aggregation.bars@)
    } else {
        after_events
    }
}

/// Counters of a fresh projector.
pub open spec fn fresh_health() -> MarketProjectorHealth {
    MarketProjectorHealth {
        batches: 0,
        events_seen: 0,
        reference_values: 0,
        venue_quotes: 0,
        external_bars: 0,
        ignored_events: 0,
        unknown_instruments: 0,
        invalid_events: 0,
        bar_rejections: 0,
        last_sequence: JournalSequence(0),
    }
}

/// Metadata of a value that is not present.
pub open spec fn unavailable_meta(availability: Availability) -> ValueMeta {
    ValueMeta {
        ts_event_ns: 0,
        ts_received_ns: 0,
        ts_effective_ns: 0,
        journal_sequence: JournalSequence(0),
        derivation_version: DerivationVersion(0),
        source: SourceId(0),
        stream: StreamId(0),
        availability,
    }
}

/// Two instruments share an identity.
pub open spec fn is_duplicated(instruments: Seq<MarketInstrument>, id: InstrumentId) -> bool {
    exists|i: int, j: int|
        0 <= i < instruments.len() && 0 <= j < instruments.len() && i != j && #[trigger] instruments[i].id == id
            && #[trigger] instruments[j].id == id
}

/// Why a set of instruments is refused, if it is: none, more than the dense
/// limit, or the least identity that occurs twice.
pub open spec fn instruments_error(instruments: Seq<MarketInstrument>) -> Option<MarketProjectorError> {
    if instruments.len() == 0 {
        Some(MarketProjectorError::EmptyInstrumentSet)
    } else if instruments.len() > MAX_DESK_INSTRUMENTS {
        Some(MarketProjectorError::TooManyInstruments(instruments.len() as usize))
    } else if exists|id: InstrumentId| is_duplicated(instruments, id) {
        Some(
            MarketProjectorError::DuplicateInstrument(
                choose|id: InstrumentId|
                    is_duplicated(instruments, id) && forall|other: InstrumentId|
                        is_duplicated(instruments, other) ==> id.0 <= other.0,
            ),
        )
    } else {
        None
    }
}

// ---------------------------------------------------------------------------
// Small executable pieces.
// ---------------------------------------------------------------------------

fn saturating_inc(value: u64) -> (next: u64)
    ensures
        next == saturating_u64(value, 1),
{
    if value == u64::MAX {
        u64::MAX
    } else {
        value + 1
    }
}

fn saturating_sum(value: u64, more: u64) -> (sum: u64)
    ensures
        sum == saturating_u64(value, more),
{
    if value > u64::MAX - more {
        u64::MAX
    } else {
        value + more
    }
}

fn availability_for(mode: OperatingMode) -> (availability: Availability)
    ensures
        availability == availability_for_spec(mode),
{
    match mode {
        OperatingMode::OfflineReplay => Availability::Replaying,
        _ => Availability::Live,
    }
}

fn availability_for_event(mode: OperatingMode, event: &MarketEvent) -> (availability: Availability)
    ensures
        availability == event_availability(mode, *event),
{
    match mode {
        OperatingMode::OfflineReplay => Availability::Replaying,
        _ => match event.time_quality {
            TimeQuality::ObservedLive => Availability::Live,
            TimeQuality::ProviderDelayed => Availability::Delayed,
            _ => Availability::Stale,
        },
    }
}

fn value_meta(event: &MarketEvent, availability: Availability) -> (meta: ValueMeta)
    ensures
        meta == meta_of(*event, availability),
{
    ValueMeta {
        ts_event_ns: event.ts_event_ns,
        ts_received_ns: event.ts_received_ns,
        ts_effective_ns: event.ts_effective_ns,
        journal_sequence: event.journal_sequence,
        derivation_version: DerivationVersion(0),
        source: event.source,
        stream: event.stream,
        availability,
    }
}

fn external_bar(event: &MarketEvent, timeframe: Timeframe) -> (bar: CanonicalBar)
    ensures
        bar == external_bar_spec(*event, timeframe),
{
    CanonicalBar {
        ts_open_ns: event.values[4],
        ts_close_ns: event.ts_event_ns,
        open: event.values[0],
        high: event.values[1],
        low: event.values[2],
        close: event.values[3],
        first_sequence: event.journal_sequence.0,
        last_sequence: event.journal_sequence.0,
        instrument_id: event.instrument_id.0,
        observation_count: 1,
        revision: 0,
        derivation_version: 0,
        timeframe: timeframe.code(),
        flags: (event.flags & 0xffff) as u16,
        reserved: 0,
    }
}

fn decode_bar_timeframe(event: &MarketEvent) -> (timeframe: Option<Timeframe>)
    ensures
        timeframe == bar_timeframe(*event),
{
    let code = event.values[5];
    if 0 <= code && code <= 65535 {
        Timeframe::from_code(code as u16)
    } else {
        None
    }
}

fn awaiting_reference(price_scale: i64) -> (reference: ReferenceValueSnapshot)
    ensures
        reference == (ReferenceValueSnapshot {
            value_scaled: 0,
            price_scale,
            meta: unavailable_meta(Availability::AwaitingFirstReceipt),
        }),
{
    ReferenceValueSnapshot {
        value_scaled: 0,
        price_scale,
        meta: ValueMeta::unavailable(Availability::AwaitingFirstReceipt),
    }
}

fn unconfigured_venue(price_scale: i64) -> (venue: VenueQuoteSnapshot)
    ensures
        venue == (VenueQuoteSnapshot {
            bid_scaled: 0,
            ask_scaled: 0,
            midpoint_scaled: 0,
            price_scale,
            meta: unavailable_meta(Availability::NotConfigured),
        }),
{
    VenueQuoteSnapshot {
        bid_scaled: 0,
        ask_scaled: 0,
        midpoint_scaled: 0,
        price_scale,
        meta: ValueMeta::unavailable(Availability::NotConfigured),
    }
}

/// A found identity no greater than `bound`.
spec fn bounded_by(found: Option<InstrumentId>, bound: u32) -> bool {
    match found {
        Some(id) => id.0 <= bound,
        None => false,
    }
}

/// The least identity that occurs twice, if any.
fn least_duplicate(instruments: &Vec<MarketInstrument>) -> (found: Option<InstrumentId>)
    ensures
        match found {
            Some(id) => is_duplicated(instruments@, id) && forall|other: InstrumentId|
                is_duplicated(instruments@, other) ==> id.0 <= other.0,
            None => forall|id: InstrumentId| !is_duplicated(instruments@, id),
        },
{
    let n = instruments.len();
    let mut found: Option<InstrumentId> = None;
    let mut i: usize = 0;
    while i < n
        invariant
            n == instruments@.len(),
            0 <= i <= n,
            match found {
                Some(id) => is_duplicated(instruments@, id),
                None => true,
            },
            forall|a: int, b: int|
                0 <= a < i && 0 <= b < n && a != b && (#[trigger] instruments@[a]).id == (#[trigger] instruments@[b]).id
                    ==> bounded_by(found, instruments@[a].id.0),
        decreases n - i,
    {
        let mut j: usize = 0;
        while j < n
            invariant
                n == instruments@.len(),
                0 <= i < n,
                0 <= j <= n,
                match found {
                    Some(id) => is_duplicated(instruments@, id),
                    None => true,
                },
                forall|a: int, b: int|
                    0 <= a < i && 0 <= b < n && a != b && (#[trigger] instruments@[a]).id == (#[trigger] instruments@[b]).id
                        ==> bounded_by(found, instruments@[a].id.0),
                forall|b: int|
                    0 <= b < j && b != i && (#[trigger] instruments@[b]).id == instruments@[i as int].id ==> bounded_by(found, instruments@[i as int].id.0),
            decreases n - j,
        {
            if j != i && instruments[j].id.0 == instruments[i].id.0 {
                let id = instruments[i].id;
                proof {
                    assert(is_duplicated(instruments@, id)) by {
                        assert(instruments@[i as int].id == id && instruments@[j as int].id == id);
                    }
                }
                match found {
                    None => {
                        found = Some(id);
                    },
                    Some(current) => {
                        if id.0 < current.0 {
                            found = Some(id);
                        }
                    },
                }
            }
            j = j + 1;
        }
        i = i + 1;
    }
    proof {
        match found {
            Some(id) => {
                assert forall|other: InstrumentId| is_duplicated(instruments@, other) implies id.0 <= other.0 by {
                    let (a, b) = choose|a: int, b: int|
                        0 <= a < instruments@.len() && 0 <= b < instruments@.len() && a != b
                            && #[trigger] instruments@[a].id == other && #[trigger] instruments@[b].id == other;
                    assert(instruments@[a].id == instruments@[b].id);
                }
            },
            None => {
                assert forall|id: InstrumentId| !is_duplicated(instruments@, id) by {
                    if is_duplicated(instruments@, id) {
                        let (a, b) = choose|a: int, b: int|
                            0 <= a < instruments@.len() && 0 <= b < instruments@.len() && a != b
                                && #[trigger] instruments@[a].id == id && #[trigger] instruments@[b].id == id;
                        assert(instruments@[a].id == instruments@[b].id);
                    }
                }
            },
        }
    }
    found
}

/// The instruments in increasing identity order; the identities are distinct.
fn sort_instruments(instruments: Vec<MarketInstrument>) -> (sorted: Vec<MarketInstrument>)
    requires
        forall|id: InstrumentId| !is_duplicated(instruments@, id),
    ensures
        sorted@.to_multiset() == instruments@.to_multiset(),
        sorted@.len() == instruments@.len(),
        forall|i: int, j: int| 0 <= i < j < sorted@.len() ==> (#[trigger] sorted@[i]).id.0 < (#[trigger] sorted@[j]).id.0,
{
    broadcast use vstd::seq_lib::group_to_multiset_ensures, vstd::multiset::group_multiset_axioms;

    let mut rest = instruments;
    let mut sorted: Vec<MarketInstrument> = Vec::new();
    let ghost all = rest@;
    proof {
        assert forall|i: int, j: int| 0 <= i < rest@.len() && 0 <= j < rest@.len() && i != j implies (
        #[trigger] rest@[i]).id != (#[trigger] rest@[j]).id by {
            if rest@[i].id == rest@[j].id {
                assert(is_duplicated(all, rest@[i].id));
            }
        }
    }
    while rest.len() > 0
        invariant
            sorted@.to_multiset().add(rest@.to_multiset()) == all.to_multiset(),
            sorted@.len() + rest@.len() == all.len(),
            forall|i: int, j: int| 0 <= i < j < sorted@.len() ==> (#[trigger] sorted@[i]).id.0 < (#[trigger] sorted@[j]).id.0,
            forall|i: int, j: int| 0 <= i < sorted@.len() && 0 <= j < rest@.len() ==> (#[trigger] sorted@[i]).id.0 < (#[trigger] rest@[j]).id.0,
            forall|i: int, j: int| 0 <= i < rest@.len() && 0 <= j < rest@.len() && i != j ==> (#[trigger] rest@[i]).id != (#[trigger] rest@[j]).id,
        decreases rest@.len(),
    {
        let mut best: usize = 0;
        let mut k: usize = 1;
        while k < rest.len()
            invariant
                1 <= k <= rest@.len(),
                best < rest@.len(),
                forall|j: int| 0 <= j < k ==> rest@[best as int].id.0 <= (#[trigger] rest@[j]).id.0,
            decreases rest@.len() - k,
        {
            if rest[k].id.0 < rest[best].id.0 {
                best = k;
            }
            k = k + 1;
        }
        let ghost before_rest = rest@;
        let ghost before_sorted = sorted@;
        let item = rest.remove(best);
        sorted.push(item);
        proof {
            assert(rest@ == before_rest.remove(best as int));
            assert(sorted@ == before_sorted.push(item));
            assert(item == before_rest[best as int]);
            assert forall|j: int| 0 <= j < rest@.len() implies item.id.0 < (#[trigger] rest@[j]).id.0 by {
                let q = if j < best { j } else { j + 1 };
                assert(rest@[j] == before_rest[q]);
                assert(before_rest[q].id != before_rest[best as int].id);
            }
            assert forall|i: int, j: int| 0 <= i < j < sorted@.len() implies (#[trigger] sorted@[i]).id.0 < (
            #[trigger] sorted@[j]).id.0 by {
                if j == sorted@.len() - 1 {
                    assert(sorted@[i] == before_sorted[i]);
                } else {
                    assert(sorted@[i] == before_sorted[i] && sorted@[j] == before_sorted[j]);
                }
            }
            assert forall|i: int, j: int| 0 <= i < sorted@.len() && 0 <= j < rest@.len() implies (
            #[trigger] sorted@[i]).id.0 < (#[trigger] rest@[j]).id.0 by {
                let q = if j < best { j } else { j + 1 };
                assert(rest@[j] == before_rest[q]);
                if i < before_sorted.len() {
                    assert(sorted@[i] == before_sorted[i]);
                }
            }
            assert forall|i: int, j: int| 0 <= i < rest@.len() && 0 <= j < rest@.len() && i != j implies (
            #[trigger] rest@[i]).id != (#[trigger] rest@[j]).id by {
                let qi = if i < best { i } else { i + 1 };
                let qj = if j < best { j } else { j + 1 };
                assert(rest@[i] == before_rest[qi] && rest@[j] == before_rest[qj]);
            }
            vstd::seq_lib::to_multiset_remove(before_rest, best as int);
            vstd::seq_lib::to_multiset_build(before_sorted, item);
            assert(before_rest.contains(item));
            vstd::seq_lib::to_multiset_contains(before_rest, item);
            assert(before_rest.to_multiset().count(item) > 0);
            assert(sorted@.to_multiset().add(rest@.to_multiset()) =~= before_sorted.to_multiset().add(
                before_rest.to_multiset(),
            ));
        }
    }
    proof {
        assert(rest@.to_multiset() =~= vstd::multiset::Multiset::empty());
        assert(sorted@.to_multiset() =~= all.to_multiset());
    }
    sorted
}

/// Series slot `t` is the slot of timeframe `tf` exactly when `tf` is
/// `slot_timeframe(t)`.
proof fn lemma_slot_timeframe(t: int, tf: Timeframe)
    requires
        0 <= t < 4,
    ensures
        (slot_timeframe(t) == tf) <==> (t == timeframe_slot_spec(tf)),
{
}

/// Whether a published series is the current state of a timeline.
pub open spec fn series_matches(series: super::BarSeriesSnapshot, timeline: BarTimeline) -> bool {
    &&& series.wf()
    &&& series.bars_spec() == timeline.bars_spec()
    &&& series.timeframe == timeline.timeframe_spec()
    &&& series.revision == timeline.revision_spec()
}

/// A projector that differs from a well-shaped one only in its counters and
/// clock keeps its shape, its identities and its fresh caches.
proof fn lemma_same_state(before: MarketProjector, after: MarketProjector)
    requires
        before.shape(),
        after.instruments == before.instruments,
        after.references == before.references,
        after.venues == before.venues,
        after.timelines == before.timelines,
        after.cached == before.cached,
    ensures
        after.shape(),
        after.ids() == before.ids(),
        forall|s: int| before.slot_fresh(s) ==> #[trigger] after.slot_fresh(s),
        forall|s: int, t: int| #[trigger] after.bars_spec(s, t) == before.bars_spec(s, t),
{
    assert(after.ids() =~= before.ids());
    assert forall|s: int, t: int| #[trigger] after.timeline_at(s, t) == before.timeline_at(s, t) by {
    }
}

/// A published instrument entry is slot `s` of `projector`.
pub open spec fn entry_matches(entry: IndexMarketSnapshot, projector: MarketProjector, s: int) -> bool {
    &&& *entry.instrument == projector.instruments_spec()[s]
    &&& entry.reference == projector.reference_spec(s)
    &&& entry.venue == projector.venue_spec(s)
    &&& forall|t: int|
        0 <= t < 4 ==> {
            &&& (#[trigger] entry.series@[t]).wf()
            &&& entry.series@[t].bars_spec() == projector.bars_spec(s, t)
            &&& entry.series@[t].timeframe == slot_timeframe(t)
        }
}

/// A published desk holds every slot of `projector`, in slot order.
pub open spec fn desk_matches(desk: DeskSnapshot, projector: MarketProjector) -> bool {
    &&& desk.instruments@.len() == projector.len_spec()
    &&& forall|s: int| 0 <= s < projector.len_spec() ==> entry_matches(*#[trigger] desk.instruments@[s], projector, s)
}

/// The desk state of the served instruments, in increasing identity order.
pub struct MarketProjector {
    mode: OperatingMode,
    instruments: Vec<Arc<MarketInstrument>>,
    references: Vec<ReferenceValueSnapshot>,
    venues: Vec<VenueQuoteSnapshot>,
    /// Four timelines per instrument, in series-slot order.
    timelines: Vec<BarTimeline>,
    cached: Vec<Arc<IndexMarketSnapshot>>,
    generation: u64,
    published_ns: i64,
    health: MarketProjectorHealth,
}

impl MarketProjector {
    pub closed spec fn mode_spec(&self) -> OperatingMode {
        self.mode
    }

    /// Number of served instruments.
    pub closed spec fn len_spec(&self) -> int {
        self.instruments@.len() as int
    }

    /// Identities of the served instruments, by slot.
    pub closed spec fn ids(&self) -> Seq<InstrumentId> {
        Seq::new(self.instruments@.len(), |i: int| self.instruments@[i].id)
    }

    /// The served instruments, by slot.
    pub closed spec fn instruments_spec(&self) -> Seq<MarketInstrument> {
        Seq::new(self.instruments@.len(), |i: int| *self.instruments@[i])
    }

    pub closed spec fn reference_spec(&self, s: int) -> ReferenceValueSnapshot {
        self.references@[s]
    }

    pub closed spec fn venue_spec(&self, s: int) -> VenueQuoteSnapshot {
        self.venues@[s]
    }

    /// The timeline of slot `s`, series `t`.
    pub closed spec fn timeline_at(&self, s: int, t: int) -> BarTimeline {
        self.timelines@[4 * s + t]
    }

    /// Bars of slot `s`, series `t`.
    pub closed spec fn bars_spec(&self, s: int, t: int) -> Seq<CanonicalBar> {
        self.timeline_at(s, t).bars_spec()
    }

    pub closed spec fn generation_spec(&self) -> u64 {
        self.generation
    }

    pub closed spec fn published_spec(&self) -> i64 {
        self.published_ns
    }

    pub closed spec fn health_spec(&self) -> MarketProjectorHealth {
        self.health
    }

    /// The cached snapshot of slot `s` is its current state.
    pub closed spec fn slot_fresh(&self, s: int) -> bool {
        let cached = *self.cached@[s];
        &&& cached.instrument == self.instruments@[s]
        &&& cached.reference == self.references@[s]
        &&& cached.venue == self.venues@[s]
        &&& forall|t: int| 0 <= t < 4 ==> series_matches(*(#[trigger] cached.series@[t]), self.timeline_at(s, t))
    }

    /// Sizes, order and timelines, whatever the caches hold.
    pub closed spec fn shape(&self) -> bool {
        let n = self.instruments@.len();
        &&& 1 <= n <= MAX_DESK_INSTRUMENTS
        &&& self.references@.len() == n
        &&& self.venues@.len() == n
        &&& self.cached@.len() == n
        &&& self.timelines@.len() == 4 * n
        &&& ids_increasing(self.ids())
        &&& forall|s: int, t: int|
            0 <= s < n && 0 <= t < 4 ==> (#[trigger] self.timeline_at(s, t)).wf() && self.timeline_at(s, t).timeframe_spec()
                == slot_timeframe(t)
    }

    /// The projector's invariant: its shape, and every cache current.
    pub closed spec fn wf(&self) -> bool {
        &&& self.shape()
        &&& forall|s: int| 0 <= s < self.instruments@.len() ==> #[trigger] self.slot_fresh(s)
    }

    /// Every served instrument has a reference value, a quote and four
    /// series, and a served identity has exactly one slot.
    pub proof fn lemma_wf(&self)
        requires
            self.wf(),
        ensures
            1 <= self.len_spec() <= MAX_DESK_INSTRUMENTS,
            self.ids().len() == self.len_spec(),
            ids_increasing(self.ids()),
            forall|s: int| 0 <= s < self.len_spec() ==> (#[trigger] self.ids()[s]) == self.instruments_spec()[s].id,
    {
    }

    /// A projector over `instruments`, sorted by identity. Refuses an empty
    /// set, more than the dense limit, or an identity that occurs twice.
    pub fn new(mode: OperatingMode, instruments: Vec<MarketInstrument>) -> (result: Result<MarketProjector, MarketProjectorError>)
        ensures
            match result {
                Ok(projector) => {
                    &&& instruments_error(instruments@) is None
                    &&& projector.wf()
                    &&& projector.mode_spec() == mode
                    &&& projector.instruments_spec().to_multiset() == instruments@.to_multiset()
                    &&& projector.len_spec() == instruments@.len()
                    &&& projector.generation_spec() == 0
                    &&& projector.published_spec() == 0
                    &&& projector.health_spec() == fresh_health()
                    &&& forall|s: int|
                        0 <= s < projector.len_spec() ==> {
                            &&& (#[trigger] projector.reference_spec(s)) == (ReferenceValueSnapshot {
                                value_scaled: 0,
                                price_scale: projector.instruments_spec()[s].price_scale,
                                meta: unavailable_meta(Availability::AwaitingFirstReceipt),
                            })
                            &&& projector.venue_spec(s) == (VenueQuoteSnapshot {
                                bid_scaled: 0,
                                ask_scaled: 0,
                                midpoint_scaled: 0,
                                price_scale: projector.instruments_spec()[s].price_scale,
                                meta: unavailable_meta(Availability::NotConfigured),
                            })
                        }
                    &&& forall|s: int, t: int|
                        0 <= s < projector.len_spec() && 0 <= t < 4 ==> (#[trigger] projector.bars_spec(s, t)).len() == 0
                },
                Err(error) => instruments_error(instruments@) == Some(error),
            },
    {
        if instruments.len() == 0 {
            return Err(MarketProjectorError::EmptyInstrumentSet);
        }
        if instruments.len() > MAX_DESK_INSTRUMENTS {
            return Err(MarketProjectorError::TooManyInstruments(instruments.len()));
        }
        match least_duplicate(&instruments) {
            Some(id) => {
                return Err(MarketProjectorError::DuplicateInstrument(id));
            },
            None => {},
        }
        let ghost given = instruments@;
        let sorted = sort_instruments(instruments);
        let n = sorted.len();
        let mut shared: Vec<Arc<MarketInstrument>> = Vec::new();
        let mut references: Vec<ReferenceValueSnapshot> = Vec::new();
        let mut venues: Vec<VenueQuoteSnapshot> = Vec::new();
        let mut timelines: Vec<BarTimeline> = Vec::new();
        let mut cached: Vec<Arc<IndexMarketSnapshot>> = Vec::new();
        let mut rest = sorted;
        let ghost order = rest@;
        let mut i: usize = 0;
        // Moves the instruments out front to back.
        let mut reversed: Vec<MarketInstrument> = Vec::new();
        while rest.len() > 0
            invariant
                reversed@.len() + rest@.len() == n,
                forall|k: int| 0 <= k < rest@.len() ==> rest@[k] == order[k],
                forall|k: int| 0 <= k < reversed@.len() ==> reversed@[k] == order[n - 1 - k],
                n == order.len(),
            decreases rest@.len(),
        {
            let item = rest.pop().unwrap();
            reversed.push(item);
        }
        while i < n
            invariant
                n == order.len(),
                1 <= n <= MAX_DESK_INSTRUMENTS,
                0 <= i <= n,
                reversed@.len() == n - i,
                forall|k: int| 0 <= k < reversed@.len() ==> reversed@[k] == order[n - 1 - k],
                forall|a: int, b: int| 0 <= a < b < order.len() ==> (#[trigger] order[a]).id.0 < (#[trigger] order[b]).id.0,
                shared@.len() == i,
                references@.len() == i,
                venues@.len() == i,
                cached@.len() == i,
                timelines@.len() == 4 * i,
                forall|k: int| 0 <= k < i ==> *(#[trigger] shared@[k]) == order[k],
                forall|k: int|
                    0 <= k < i ==> (#[trigger] references@[k]) == (ReferenceValueSnapshot {
                        value_scaled: 0,
                        price_scale: order[k].price_scale,
                        meta: unavailable_meta(Availability::AwaitingFirstReceipt),
                    }),
                forall|k: int|
                    0 <= k < i ==> (#[trigger] venues@[k]) == (VenueQuoteSnapshot {
                        bid_scaled: 0,
                        ask_scaled: 0,
                        midpoint_scaled: 0,
                        price_scale: order[k].price_scale,
                        meta: unavailable_meta(Availability::NotConfigured),
                    }),
                forall|k: int|
                    0 <= k < 4 * i ==> (#[trigger] timelines@[k]).wf() && timelines@[k].bars_spec().len() == 0
                        && timelines@[k].timeframe_spec() == slot_timeframe(k % 4),
                forall|k: int|
                    0 <= k < i ==> {
                        let entry = *(#[trigger] cached@[k]);
                        &&& entry.instrument == shared@[k]
                        &&& entry.reference == references@[k]
                        &&& entry.venue == venues@[k]
                        &&& forall|t: int| 0 <= t < 4 ==> series_matches(*(#[trigger] entry.series@[t]), timelines@[4 * k + t])
                    },
            decreases n - i,
        {
            let item = reversed.pop().unwrap();
            let instrument = Arc::new(item);
            let reference = awaiting_reference(instrument.price_scale);
            let venue = unconfigured_venue(instrument.price_scale);
            let m4 = BarTimeline::new(Timeframe::M4);
            let m20 = BarTimeline::new(Timeframe::M20);
            let h2 = BarTimeline::new(Timeframe::H2);
            let h4 = BarTimeline::new(Timeframe::H4);
            let entry = IndexMarketSnapshot {
                instrument: Arc::clone(&instrument),
                reference,
                venue,
                series: [m4.cached(), m20.cached(), h2.cached(), h4.cached()],
            };
            let ghost before = timelines@;
            timelines.push(m4);
            timelines.push(m20);
            timelines.push(h2);
            timelines.push(h4);
            shared.push(instrument);
            references.push(reference);
            venues.push(venue);
            cached.push(Arc::new(entry));
            proof {
                assert(reversed@.len() == n - i - 1);
                assert forall|k: int| 0 <= k < 4 * (i + 1) implies (#[trigger] timelines@[k]).wf() && timelines@[k].bars_spec().len()
                    == 0 && timelines@[k].timeframe_spec() == slot_timeframe(k % 4) by {
                    if k < 4 * i {
                        assert(timelines@[k] == before[k]);
                    }
                }
                let fresh = *cached@[i as int];
                assert forall|t: int| 0 <= t < 4 implies series_matches(*(#[trigger] fresh.series@[t]), timelines@[4 * i + t]) by {
                }
                assert forall|k: int|
                    0 <= k < i + 1 implies {
                        let entry = *(#[trigger] cached@[k]);
                        &&& entry.instrument == shared@[k]
                        &&& entry.reference == references@[k]
                        &&& entry.venue == venues@[k]
                        &&& forall|t: int| 0 <= t < 4 ==> series_matches(*(#[trigger] entry.series@[t]), timelines@[4 * k + t])
                    } by {
                    if k < i {
                        let entry = *cached@[k];
                        assert forall|t: int| 0 <= t < 4 implies series_matches(*(#[trigger] entry.series@[t]), timelines@[4 * k + t]) by {
                            assert(timelines@[4 * k + t] == before[4 * k + t]);
                        }
                    }
                }
            }
            i = i + 1;
        }
        let projector = MarketProjector {
            mode,
            instruments: shared,
            references,
            venues,
            timelines,
            cached,
            generation: 0,
            published_ns: 0,
            health: MarketProjectorHealth {
                batches: 0,
                events_seen: 0,
                reference_values: 0,
                venue_quotes: 0,
                external_bars: 0,
                ignored_events: 0,
                unknown_instruments: 0,
                invalid_events: 0,
                bar_rejections: 0,
                last_sequence: JournalSequence(0),
            },
        };
        proof {
            assert(projector.instruments_spec() =~= order);
            assert forall|s: int, t: int| 0 <= s < n && 0 <= t < 4 implies (#[trigger] projector.timeline_at(s, t)).wf()
                && projector.timeline_at(s, t).timeframe_spec() == slot_timeframe(t) && projector.bars_spec(s, t).len() == 0 by {
                assert((4 * s + t) % 4 == t);
            }
            assert forall|s: int| 0 <= s < n implies #[trigger] projector.slot_fresh(s) by {
            }
            assert forall|a: int, b: int| 0 <= a < b < n implies (#[trigger] projector.ids()[a]).0 < (
            #[trigger] projector.ids()[b]).0 by {
                assert(projector.ids()[a] == order[a].id && projector.ids()[b] == order[b].id);
            }
        }
        Ok(projector)
    }

    /// Dense slot of `instrument`, by binary search over the sorted
    /// identities.
    fn slot(&self, instrument: InstrumentId) -> (found: Option<usize>)
        requires
            self.shape(),
        ensures
            match found {
                Some(s) => slot_of(self.ids(), instrument) == Some(s as int) && s < self.instruments@.len(),
                None => slot_of(self.ids(), instrument) is None,
            },
    {
        let ghost ids = self.ids();
        let mut low: usize = 0;
        let mut high: usize = self.instruments.len();
        while low < high
            invariant
                ids == self.ids(),
                ids_increasing(ids),
                0 <= low <= high <= ids.len(),
                ids.len() == self.instruments@.len(),
                forall|k: int| 0 <= k < low ==> (#[trigger] ids[k]).0 < instrument.0,
                forall|k: int| high <= k < ids.len() ==> (#[trigger] ids[k]).0 > instrument.0,
            decreases high - low,
        {
            let middle = low + (high - low) / 2;
            let id = self.instruments[middle].id;
            proof {
                assert(ids[middle as int] == id);
            }
            if id.0 < instrument.0 {
                low = middle + 1;
            } else if id.0 > instrument.0 {
                high = middle;
            } else {
                proof {
                    assert(ids[middle as int] == instrument);
                    let chosen = choose|i: int| 0 <= i < ids.len() && ids[i] == instrument;
                    if chosen < middle {
                        assert(ids[chosen].0 < ids[middle as int].0);
                    } else if chosen > middle {
                        assert(ids[middle as int].0 < ids[chosen].0);
                    }
                }
                return Some(middle);
            }
        }
        proof {
            assert forall|i: int| 0 <= i < ids.len() implies ids[i] != instrument by {
                assert(ids[i].0 < instrument.0 || ids[i].0 > instrument.0);
            }
        }
        None
    }

    /// Applies one event to the state of its slot and marks the slot dirty;
    /// returns the event's availability when it is a known desk event, and
    /// whether it was applied.
    #[verifier::rlimit(40)]
    fn apply_event(&mut self, event: &MarketEvent, dirty: &mut Vec<bool>) -> (outcome: (Option<Availability>, bool))
        requires
            old(self).shape(),
            old(dirty)@.len() == old(self).instruments@.len(),
            forall|s: int| 0 <= s < old(self).instruments@.len() && !old(dirty)@[s] ==> #[trigger] old(self).slot_fresh(s),
        ensures
            final(self).shape(),
            final(self).mode == old(self).mode,
            final(self).instruments == old(self).instruments,
            final(self).cached == old(self).cached,
            final(self).generation == old(self).generation,
            final(self).published_ns == old(self).published_ns,
            final(self).health == health_step(old(self).health, old(self).ids(), *event),
            forall|s: int|
                0 <= s < old(self).instruments@.len() ==> #[trigger] final(self).references@[s] == reference_step(
                    old(self).references@[s],
                    old(self).ids(),
                    old(self).mode,
                    old(self).instruments@[s].price_scale,
                    s,
                    *event,
                ),
            forall|s: int|
                0 <= s < old(self).instruments@.len() ==> #[trigger] final(self).venues@[s] == venue_step(
                    old(self).venues@[s],
                    old(self).ids(),
                    old(self).mode,
                    old(self).instruments@[s].price_scale,
                    s,
                    *event,
                ),
            forall|s: int, t: int|
                0 <= s < old(self).instruments@.len() && 0 <= t < 4 ==> #[trigger] final(self).bars_spec(s, t) == bars_step(
                    old(self).bars_spec(s, t),
                    old(self).ids(),
                    s,
                    t,
                    *event,
                ),
            outcome.0 == if known(old(self).ids(), *event) {
                Some(event_availability(old(self).mode, *event))
            } else {
                None
            },
            outcome.1 == applies(old(self).ids(), *event),
            final(dirty)@.len() == old(dirty)@.len(),
            forall|s: int|
                0 <= s < old(self).instruments@.len() ==> #[trigger] final(dirty)@[s] == (old(dirty)@[s] || applies_to(
                    old(self).ids(),
                    *event,
                    s,
                )),
            forall|s: int| 0 <= s < old(self).instruments@.len() && !final(dirty)@[s] ==> #[trigger] final(self).slot_fresh(s),
    {
        let ghost ids = self.ids();
        let ghost n = self.instruments@.len() as int;
        let ghost start = *self;
        self.health.events_seen = saturating_inc(self.health.events_seen);
        if event.journal_sequence.0 > self.health.last_sequence.0 {
            self.health.last_sequence = event.journal_sequence;
        }
        proof {
            lemma_same_state(start, *self);
        }
        let kind = match event.kind {
            None => {
                self.health.invalid_events = saturating_inc(self.health.invalid_events);
                proof {
                    lemma_same_state(start, *self);
                }
                return (None, false);
            },
            Some(kind) => kind,
        };
        let market = match kind {
            EventKind::IndexValue => true,
            EventKind::VenueQuote => true,
            EventKind::ExternalBar => true,
            _ => false,
        };
        if !market {
            self.health.ignored_events = saturating_inc(self.health.ignored_events);
            proof {
                lemma_same_state(start, *self);
            }
            return (None, false);
        }
        let slot = match self.slot(event.instrument_id) {
            None => {
                self.health.unknown_instruments = saturating_inc(self.health.unknown_instruments);
                proof {
                    lemma_same_state(start, *self);
                }
                return (None, false);
            },
            Some(slot) => slot,
        };
        let availability = availability_for_event(self.mode, event);
        let meta = value_meta(event, availability);
        let scale = self.instruments[slot].price_scale;
        match kind {
            EventKind::IndexValue => {
                self.references.set(slot, ReferenceValueSnapshot { value_scaled: event.values[0], price_scale: scale, meta });
                self.health.reference_values = saturating_inc(self.health.reference_values);
            },
            EventKind::VenueQuote => {
                self.venues.set(
                    slot,
                    VenueQuoteSnapshot {
                        bid_scaled: event.values[0],
                        ask_scaled: event.values[1],
                        midpoint_scaled: event.values[2],
                        price_scale: scale,
                        meta,
                    },
                );
                self.health.venue_quotes = saturating_inc(self.health.venue_quotes);
            },
            _ => {
                let timeframe = match decode_bar_timeframe(event) {
                    None => {
                        self.health.invalid_events = saturating_inc(self.health.invalid_events);
                        proof {
                            lemma_same_state(start, *self);
                        }
                        return (Some(availability), false);
                    },
                    Some(timeframe) => timeframe,
                };
                let bar = external_bar(event, timeframe);
                let index = 4 * slot + timeframe_slot(timeframe);
                proof {
                    assert(self.timeline_at(slot as int, timeframe_slot_spec(timeframe)) == self.timelines@[index as int]);
                }
                if self.timelines[index].len() < usize::MAX {
                    self.timelines[index].upsert(bar);
                }
                let current = self.references[slot];
                if !current.meta.availability.has_value() || event.ts_event_ns >= current.meta.ts_event_ns {
                    self.references.set(slot, ReferenceValueSnapshot { value_scaled: event.values[3], price_scale: scale, meta });
                }
                self.health.external_bars = saturating_inc(self.health.external_bars);
            },
        }
        dirty.set(slot, true);
        proof {
            assert(self.ids() =~= ids);
            assert forall|s: int, t: int| 0 <= s < n && 0 <= t < 4 implies (#[trigger] self.timeline_at(s, t)).wf()
                && self.timeline_at(s, t).timeframe_spec() == slot_timeframe(t) && self.bars_spec(s, t) == bars_step(
                old(self).bars_spec(s, t),
                ids,
                s,
                t,
                *event,
            ) by {
                lemma_slot_timeframe(t, slot_timeframe(t));
                if kind == EventKind::ExternalBar {
                    let timeframe = bar_timeframe(*event)->0;
                    lemma_slot_timeframe(t, timeframe);
                    if s == slot && t == timeframe_slot_spec(timeframe) {
                    } else {
                        assert(4 * s + t != 4 * slot + timeframe_slot_spec(timeframe));
                        assert(self.timeline_at(s, t) == old(self).timeline_at(s, t));
                    }
                } else {
                    assert(self.timeline_at(s, t) == old(self).timeline_at(s, t));
                }
            }
            assert forall|s: int| 0 <= s < n && !dirty@[s] implies #[trigger] self.slot_fresh(s) by {
                assert(s != slot);
                assert(old(self).slot_fresh(s));
                assert forall|t: int| 0 <= t < 4 implies self.timeline_at(s, t) == old(self).timeline_at(s, t) by {
                    if kind == EventKind::ExternalBar {
                        let timeframe = bar_timeframe(*event)->0;
                        assert(4 * s + t != 4 * slot + timeframe_slot_spec(timeframe));
                    }
                }
            }
        }
        (Some(availability), true)
    }

    /// Applies one aggregated bar to its slot, if the projector serves its
    /// instrument; returns whether the slot changed.
    fn apply_emitted(&mut self, bar: CanonicalBar, dirty: &mut Vec<bool>)
        requires
            old(self).shape(),
            old(dirty)@.len() == old(self).instruments@.len(),
            forall|s: int| 0 <= s < old(self).instruments@.len() && !old(dirty)@[s] ==> #[trigger] old(self).slot_fresh(s),
        ensures
            final(self).shape(),
            final(self).mode == old(self).mode,
            final(self).instruments == old(self).instruments,
            final(self).references == old(self).references,
            final(self).venues == old(self).venues,
            final(self).cached == old(self).cached,
            final(self).generation == old(self).generation,
            final(self).published_ns == old(self).published_ns,
            final(self).health == emitted_health_fold(old(self).health, old(self).ids(), seq![bar]),
            forall|s: int, t: int|
                0 <= s < old(self).instruments@.len() && 0 <= t < 4 ==> #[trigger] final(self).bars_spec(s, t)
                    == emitted_fold(old(self).bars_spec(s, t), old(self).ids(), s, t, seq![bar]),
            final(dirty)@.len() == old(dirty)@.len(),
            forall|s: int| 0 <= s < old(self).instruments@.len() && !final(dirty)@[s] ==> #[trigger] final(self).slot_fresh(s),
    {
        let ghost start = *self;
        let ghost ids = self.ids();
        let ghost n = self.instruments@.len() as int;
        proof {
            let one = seq![bar];
            assert(one.drop_last() =~= Seq::<CanonicalBar>::empty());
            assert(one.last() == bar);
            assert(emitted_health_fold(start.health, ids, one.drop_last()) == start.health);
            assert forall|s: int, t: int| #[trigger] emitted_fold(start.bars_spec(s, t), ids, s, t, one.drop_last())
                == start.bars_spec(s, t) by {
            }
            assert forall|s: int, t: int| #[trigger] emitted_fold(start.bars_spec(s, t), ids, s, t, one) == if emitted_to(
                ids,
                bar,
                s,
                t,
            ) {
                timeline_upsert(start.bars_spec(s, t), bar).0
            } else {
                start.bars_spec(s, t)
            } by {
                assert(emitted_fold(start.bars_spec(s, t), ids, s, t, one.drop_last()) == start.bars_spec(s, t));
            }
        }
        let slot = match self.slot(InstrumentId(bar.instrument_id)) {
            None => {
                return;
            },
            Some(slot) => slot,
        };
        let timeframe = match Timeframe::from_code(bar.timeframe) {
            None => {
                self.health.invalid_events = saturating_inc(self.health.invalid_events);
                proof {
                    lemma_same_state(start, *self);
                }
                return;
            },
            Some(timeframe) => timeframe,
        };
        let index = 4 * slot + timeframe_slot(timeframe);
        proof {
            assert(self.timeline_at(slot as int, timeframe_slot_spec(timeframe)) == self.timelines@[index as int]);
        }
        if self.timelines[index].len() < usize::MAX {
            let changed = self.timelines[index].upsert(bar);
            if changed {
                dirty.set(slot, true);
            }
        }
        proof {
            assert(self.ids() =~= ids);
            assert forall|s: int, t: int| 0 <= s < n && 0 <= t < 4 implies (#[trigger] self.timeline_at(s, t)).wf()
                && self.timeline_at(s, t).timeframe_spec() == slot_timeframe(t) && self.bars_spec(s, t) == emitted_fold(
                old(self).bars_spec(s, t),
                ids,
                s,
                t,
                seq![bar],
            ) by {
                lemma_slot_timeframe(t, timeframe);
                if !(s == slot && t == timeframe_slot_spec(timeframe)) {
                    assert(4 * s + t != 4 * slot + timeframe_slot_spec(timeframe));
                    assert(self.timeline_at(s, t) == old(self).timeline_at(s, t));
                }
            }
            assert forall|s: int| 0 <= s < n && !dirty@[s] implies #[trigger] self.slot_fresh(s) by {
                assert(old(self).slot_fresh(s));
                assert forall|t: int| 0 <= t < 4 implies series_matches(
                    *(#[trigger] self.cached@[s].series@[t]),
                    self.timeline_at(s, t),
                ) by {
                    if s == slot && t == timeframe_slot_spec(timeframe) {
                        assert(self.bars_spec(s, t) == old(self).bars_spec(s, t));
                    } else {
                        assert(4 * s + t != 4 * slot + timeframe_slot_spec(timeframe));
                        assert(self.timeline_at(s, t) == old(self).timeline_at(s, t));
                    }
                }
            }
        }
    }

    /// Rebuilds the cached snapshot of slot `s` from its current state.
    fn refresh(&mut self, s: usize)
        requires
            old(self).shape(),
            s < old(self).instruments@.len(),
        ensures
            final(self).shape(),
            final(self).mode == old(self).mode,
            final(self).instruments == old(self).instruments,
            final(self).references == old(self).references,
            final(self).venues == old(self).venues,
            final(self).timelines == old(self).timelines,
            final(self).generation == old(self).generation,
            final(self).published_ns == old(self).published_ns,
            final(self).health == old(self).health,
            final(self).cached@ == old(self).cached@.update(s as int, final(self).cached@[s as int]),
            final(self).slot_fresh(s as int),
    {
        proof {
            assert forall|t: int| 0 <= t < 4 implies #[trigger] self.timeline_at(s as int, t) == self.timelines@[4 * s + t] by {
            }
            assert(self.timeline_at(s as int, 0).wf() && self.timeline_at(s as int, 1).wf());
            assert(self.timeline_at(s as int, 2).wf() && self.timeline_at(s as int, 3).wf());
        }
        let entry = IndexMarketSnapshot {
            instrument: Arc::clone(&self.instruments[s]),
            reference: self.references[s],
            venue: self.venues[s],
            series: [
                self.timelines[4 * s].cached(),
                self.timelines[4 * s + 1].cached(),
                self.timelines[4 * s + 2].cached(),
                self.timelines[4 * s + 3].cached(),
            ],
        };
        self.cached.set(s, Arc::new(entry));
        proof {
            assert(self.ids() =~= old(self).ids());
            assert forall|a: int, t: int| #[trigger] self.timeline_at(a, t) == old(self).timeline_at(a, t) by {
            }
            let fresh = *self.cached@[s as int];
            assert forall|t: int| 0 <= t < 4 implies series_matches(*(#[trigger] fresh.series@[t]), self.timeline_at(s as int, t)) by {
            }
        }
    }

    /// Projects a batch of committed events, then the bars the aggregator
    /// emitted for it when the batch carried a reference value. Returns the
    /// new desk publication, or `None` when no event applied to a served
    /// instrument. Only the slots that changed get new cached snapshots.
    #[verifier::rlimit(60)]
    pub fn apply_batch(&mut self, events: &[MarketEvent], aggregation: &BarAggregation) -> (desk: Option<Arc<DeskSnapshot>>)
        requires
            old(self).wf(),
        ensures
            final(self).wf(),
            projector_step(*old(self), events@, *aggregation, *final(self)),
            final(self).mode_spec() == old(self).mode_spec(),
            final(self).len_spec() == old(self).len_spec(),
            final(self).ids() == old(self).ids(),
            final(self).instruments_spec() == old(self).instruments_spec(),
            final(self).health_spec() == batch_health(old(self).health_spec(), old(self).ids(), events@, *aggregation),
            final(self).published_spec() == published_fold(old(self).published_spec(), old(self).ids(), events@),
            forall|s: int|
                0 <= s < old(self).len_spec() ==> #[trigger] final(self).reference_spec(s) == reference_fold(
                    old(self).reference_spec(s),
                    old(self).ids(),
                    old(self).mode_spec(),
                    old(self).instruments_spec()[s].price_scale,
                    s,
                    events@,
                ),
            forall|s: int|
                0 <= s < old(self).len_spec() ==> #[trigger] final(self).venue_spec(s) == venue_fold(
                    old(self).venue_spec(s),
                    old(self).ids(),
                    old(self).mode_spec(),
                    old(self).instruments_spec()[s].price_scale,
                    s,
                    events@,
                ),
            forall|s: int, t: int|
                0 <= s < old(self).len_spec() && 0 <= t < 4 ==> #[trigger] final(self).bars_spec(s, t) == batch_bars(
                    old(self).bars_spec(s, t),
                    old(self).ids(),
                    s,
                    t,
                    events@,
                    *aggregation,
                ),
            match desk {
                None => {
                    &&& !batch_applies(old(self).ids(), events@)
                    &&& final(self).generation_spec() == old(self).generation_spec()
                },
                Some(desk) => {
                    &&& batch_applies(old(self).ids(), events@)
                    &&& final(self).generation_spec() == saturating_u64(old(self).generation_spec(), 1)
                    &&& desk.generation == final(self).generation_spec()
                    &&& desk.published_ns == final(self).published_spec()
                    &&& desk.last_sequence == final(self).health_spec().last_sequence
                    &&& desk.availability == match availability_fold(old(self).ids(), old(self).mode_spec(), events@) {
                        Some(availability) => availability,
                        None => availability_for_spec(old(self).mode_spec()),
                    }
                    &&& desk_matches(*desk, *final(self))
                },
            },
    {
        let ghost before = *self;
        let ghost ids = self.ids();
        let n = self.instruments.len();
        self.health.batches = saturating_inc(self.health.batches);
        proof {
            lemma_same_state(before, *self);
        }
        let ghost started = self.health;
        let mut dirty: Vec<bool> = Vec::new();
        let mut k: usize = 0;
        while k < n
            invariant
                n == self.instruments@.len(),
                0 <= k <= n,
                dirty@.len() == k,
                forall|s: int| 0 <= s < k ==> !(#[trigger] dirty@[s]),
            decreases n - k,
        {
            dirty.push(false);
            k = k + 1;
        }
        let mut watermark: i64 = i64::MIN;
        let mut availability: Option<Availability> = None;
        let mut touched = false;
        let count = events.len();
        let mut i: usize = 0;
        while i < count
            invariant
                count == events@.len(),
                0 <= i <= count,
                n == self.instruments@.len(),
                self.shape(),
                self.mode == before.mode,
                self.instruments == before.instruments,
                self.cached == before.cached,
                self.generation == before.generation,
                self.ids() == ids,
                ids == before.ids(),
                dirty@.len() == n,
                forall|s: int| 0 <= s < n && !dirty@[s] ==> #[trigger] self.slot_fresh(s),
                self.health == health_fold(started, ids, events@.subrange(0, i as int)),
                forall|s: int|
                    0 <= s < n ==> #[trigger] self.references@[s] == reference_fold(
                        before.references@[s],
                        ids,
                        before.mode,
                        before.instruments@[s].price_scale,
                        s,
                        events@.subrange(0, i as int),
                    ),
                forall|s: int|
                    0 <= s < n ==> #[trigger] self.venues@[s] == venue_fold(
                        before.venues@[s],
                        ids,
                        before.mode,
                        before.instruments@[s].price_scale,
                        s,
                        events@.subrange(0, i as int),
                    ),
                forall|s: int, t: int|
                    0 <= s < n && 0 <= t < 4 ==> #[trigger] self.bars_spec(s, t) == bars_fold(
                        before.bars_spec(s, t),
                        ids,
                        s,
                        t,
                        events@.subrange(0, i as int),
                    ),
                watermark == watermark_fold(ids, events@.subrange(0, i as int)),
                self.published_ns == published_fold(before.published_ns, ids, events@.subrange(0, i as int)),
                availability == availability_fold(ids, before.mode, events@.subrange(0, i as int)),
                touched == exists|j: int| 0 <= j < i && applies(ids, #[trigger] events@[j]),
                watermark != i64::MIN ==> touched,
                forall|s: int| 0 <= s < n && #[trigger] dirty@[s] ==> touched,
            decreases count - i,
        {
            let event = &events[i];
            let (known_availability, applied) = self.apply_event(event, &mut dirty);
            let ghost mid = *self;
            match known_availability {
                Some(this) => {
                    availability = match availability {
                        Some(Availability::Live) => Some(Availability::Live),
                        _ => match this {
                            Availability::Live => Some(Availability::Live),
                            _ => Some(this),
                        },
                    };
                },
                None => {},
            }
            if applied {
                if event.kind == Some(EventKind::IndexValue) && event.ts_event_ns > watermark {
                    watermark = event.ts_event_ns;
                }
                if event.ts_received_ns > self.published_ns {
                    self.published_ns = event.ts_received_ns;
                }
                touched = true;
            }
            proof {
                let prefix = events@.subrange(0, i + 1);
                assert(prefix.drop_last() =~= events@.subrange(0, i as int));
                assert(prefix.last() == events@[i as int]);
                lemma_same_state(mid, *self);
                if applied {
                    assert(applies(ids, events@[i as int]));
                }
            }
            i = i + 1;
        }
        proof {
            assert(events@.subrange(0, count as int) =~= events@);
        }
        let ghost counted = *self;
        self.health.bar_rejections = saturating_sum(self.health.bar_rejections, aggregation.rejected);
        proof {
            lemma_same_state(counted, *self);
        }
        let ghost after_events = *self;
        if watermark != i64::MIN {
            let emitted = aggregation.bars.len();
            let mut b: usize = 0;
            while b < emitted
                invariant
                    emitted == aggregation.bars@.len(),
                    0 <= b <= emitted,
                    n == self.instruments@.len(),
                    self.shape(),
                    self.mode == before.mode,
                    self.instruments == before.instruments,
                    self.references == after_events.references,
                    self.venues == after_events.venues,
                    self.cached == before.cached,
                    self.generation == before.generation,
                    self.published_ns == after_events.published_ns,
                    self.ids() == ids,
                    touched,
                    dirty@.len() == n,
                    forall|s: int| 0 <= s < n && !dirty@[s] ==> #[trigger] self.slot_fresh(s),
                    self.health == emitted_health_fold(after_events.health, ids, aggregation.bars@.subrange(0, b as int)),
                    forall|s: int, t: int|
                        0 <= s < n && 0 <= t < 4 ==> #[trigger] self.bars_spec(s, t) == emitted_fold(
                            after_events.bars_spec(s, t),
                            ids,
                            s,
                            t,
                            aggregation.bars@.subrange(0, b as int),
                        ),
                decreases emitted - b,
            {
                let ghost previous = *self;
                self.apply_emitted(aggregation.bars[b], &mut dirty);
                proof {
                    let prefix = aggregation.bars@.subrange(0, b + 1);
                    assert(prefix.drop_last() =~= aggregation.bars@.subrange(0, b as int));
                    assert(prefix.last() == aggregation.bars@[b as int]);
                    let one = seq![aggregation.bars@[b as int]];
                    assert(one.drop_last() =~= Seq::<CanonicalBar>::empty());
                    assert(one.last() == aggregation.bars@[b as int]);
                    assert(emitted_health_fold(previous.health, ids, one.drop_last()) == previous.health);
                    assert(self.health == emitted_health_fold(after_events.health, ids, prefix));
                    assert forall|s: int, t: int| 0 <= s < n && 0 <= t < 4 implies #[trigger] self.bars_spec(s, t)
                        == emitted_fold(after_events.bars_spec(s, t), ids, s, t, prefix) by {
                        assert(emitted_fold(previous.bars_spec(s, t), ids, s, t, one.drop_last()) == previous.bars_spec(s, t));
                        assert(self.bars_spec(s, t) == emitted_fold(previous.bars_spec(s, t), ids, s, t, one));
                    }
                }
                b = b + 1;
            }
            proof {
                assert(aggregation.bars@.subrange(0, emitted as int) =~= aggregation.bars@);
            }
        }
        if !touched {
            proof {
                assert(!batch_applies(ids, events@));
                assert forall|s: int| 0 <= s < n implies #[trigger] self.slot_fresh(s) by {
                    if dirty@[s] {
                        // A dirty slot had an applied event, so the batch applied.
                        assert(false);
                    }
                }
            }
            return None;
        }
        let ghost settled = *self;
        let mut r: usize = 0;
        while r < n
            invariant
                0 <= r <= n,
                n == self.instruments@.len(),
                self.shape(),
                self.mode == before.mode,
                self.instruments == before.instruments,
                self.references == settled.references,
                self.venues == settled.venues,
                self.timelines == settled.timelines,
                self.health == settled.health,
                self.generation == before.generation,
                self.published_ns == settled.published_ns,
                self.ids() == ids,
                dirty@.len() == n,
                forall|s: int| 0 <= s < r ==> #[trigger] self.slot_fresh(s),
                forall|s: int| r <= s < n && !dirty@[s] ==> #[trigger] self.slot_fresh(s),
            decreases n - r,
        {
            if dirty[r] {
                let ghost previous = *self;
                self.refresh(r);
                proof {
                    assert forall|s: int| 0 <= s < n && s != r && previous.slot_fresh(s) implies #[trigger] self.slot_fresh(s) by {
                        assert(self.cached@[s] == previous.cached@[s]);
                        assert forall|t: int| 0 <= t < 4 implies self.timeline_at(s, t) == previous.timeline_at(s, t) by {
                        }
                    }
                }
            }
            r = r + 1;
        }
        let ghost refreshed = *self;
        self.generation = saturating_inc(self.generation);
        proof {
            lemma_same_state(refreshed, *self);
            assert forall|s: int, t: int| #[trigger] self.bars_spec(s, t) == settled.bars_spec(s, t) by {
                assert(self.timeline_at(s, t) == settled.timeline_at(s, t));
            }
        }
        let mut instruments: Vec<Arc<IndexMarketSnapshot>> = Vec::new();
        let mut c: usize = 0;
        while c < n
            invariant
                0 <= c <= n,
                n == self.instruments@.len(),
                self.wf(),
                instruments@.len() == c,
                forall|s: int| 0 <= s < c ==> *(#[trigger] instruments@[s]) == *self.cached@[s],
            decreases n - c,
        {
            instruments.push(Arc::clone(&self.cached[c]));
            c = c + 1;
        }
        let desk = DeskSnapshot {
            generation: self.generation,
            published_ns: self.published_ns,
            last_sequence: self.health.last_sequence,
            availability: match availability {
                Some(availability) => availability,
                None => availability_for(self.mode),
            },
            instruments,
        };
        proof {
            assert(self.instruments_spec() =~= before.instruments_spec());
            assert forall|s: int| 0 <= s < n implies entry_matches(*#[trigger] desk.instruments@[s], *self, s) by {
                assert(self.slot_fresh(s));
                let entry = *self.cached@[s];
                assert forall|t: int| 0 <= t < 4 implies {
                    &&& (#[trigger] entry.series@[t]).wf()
                    &&& entry.series@[t].bars_spec() == self.bars_spec(s, t)
                    &&& entry.series@[t].timeframe == slot_timeframe(t)
                } by {
                    assert(series_matches(*entry.series@[t], self.timeline_at(s, t)));
                }
            }
            assert(batch_applies(ids, events@));
        }
        Some(Arc::new(desk))
    }

    /// The projection counters.
    pub fn health(&self) -> (health: MarketProjectorHealth)
        ensures
            health == self.health_spec(),
    {
        self.health
    }

    /// The current desk, for startup, transport failure and restart
    /// publication: every instrument entry is shared, no history is copied.
    pub fn current_snapshot(&self, availability: Availability) -> (desk: Arc<DeskSnapshot>)
        requires
            self.wf(),
        ensures
            desk.generation == self.generation_spec(),
            desk.published_ns == self.published_spec(),
            desk.last_sequence == self.health_spec().last_sequence,
            desk.availability == availability,
            desk_matches(*desk, *self),
    {
        let n = self.instruments.len();
        let mut instruments: Vec<Arc<IndexMarketSnapshot>> = Vec::new();
        let mut c: usize = 0;
        while c < n
            invariant
                0 <= c <= n,
                n == self.instruments@.len(),
                self.wf(),
                instruments@.len() == c,
                forall|s: int| 0 <= s < c ==> *(#[trigger] instruments@[s]) == *self.cached@[s],
            decreases n - c,
        {
            instruments.push(Arc::clone(&self.cached[c]));
            c = c + 1;
        }
        let desk = DeskSnapshot {
            generation: self.generation,
            published_ns: self.published_ns,
            last_sequence: self.health.last_sequence,
            availability,
            instruments,
        };
        proof {
            assert forall|s: int| 0 <= s < n implies entry_matches(*#[trigger] desk.instruments@[s], *self, s) by {
                assert(self.slot_fresh(s));
                let entry = *self.cached@[s];
                assert forall|t: int| 0 <= t < 4 implies {
                    &&& (#[trigger] entry.series@[t]).wf()
                    &&& entry.series@[t].bars_spec() == self.bars_spec(s, t)
                    &&& entry.series@[t].timeframe == slot_timeframe(t)
                } by {
                    assert(series_matches(*entry.series@[t], self.timeline_at(s, t)));
                }
            }
        }
        Arc::new(desk)
    }
}


/// Two reference values that agree in everything but the availability they
/// report, both present or both absent.
pub open spec fn same_but_availability(a: ReferenceValueSnapshot, b: ReferenceValueSnapshot) -> bool {
    &&& a.value_scaled == b.value_scaled
    &&& a.price_scale == b.price_scale
    &&& a.meta.ts_event_ns == b.meta.ts_event_ns
    &&& a.meta.ts_received_ns == b.meta.ts_received_ns
    &&& a.meta.ts_effective_ns == b.meta.ts_effective_ns
    &&& a.meta.journal_sequence == b.meta.journal_sequence
    &&& a.meta.source == b.meta.source
    &&& a.meta.stream == b.meta.stream
    &&& has_value_spec(a.meta.availability) == has_value_spec(b.meta.availability)
}

/// Live and replayed projections publish the same reference values: run in
/// any two modes over the same events from the same value, the reference of
/// a slot differs at most in the availability it reports. (Bars and quotes
/// take no mode at all.)
pub proof fn lemma_reference_mode_independent(
    reference: ReferenceValueSnapshot,
    ids: Seq<InstrumentId>,
    first: OperatingMode,
    second: OperatingMode,
    scale: i64,
    s: int,
    events: Seq<MarketEvent>,
)
    ensures
        same_but_availability(
            reference_fold(reference, ids, first, scale, s, events),
            reference_fold(reference, ids, second, scale, s, events),
        ),
{
    lemma_reference_folds_agree(reference, reference, ids, first, second, scale, s, events);
}

/// Two references that differ at most in their availability stay so when
/// the same events are folded into them, each in its own mode; a replayed
/// reference only ever reads replaying, or what it read before.
pub proof fn lemma_reference_folds_agree(
    first_reference: ReferenceValueSnapshot,
    second_reference: ReferenceValueSnapshot,
    ids: Seq<InstrumentId>,
    first: OperatingMode,
    second: OperatingMode,
    scale: i64,
    s: int,
    events: Seq<MarketEvent>,
)
    requires
        same_but_availability(first_reference, second_reference),
    ensures
        same_but_availability(
            reference_fold(first_reference, ids, first, scale, s, events),
            reference_fold(second_reference, ids, second, scale, s, events),
        ),
        second == OperatingMode::OfflineReplay ==> {
            let folded = reference_fold(second_reference, ids, second, scale, s, events).meta.availability;
            folded == second_reference.meta.availability || folded == Availability::Replaying
        },
    decreases events.len(),
{
    if events.len() > 0 {
        lemma_reference_folds_agree(first_reference, second_reference, ids, first, second, scale, s, events.drop_last());
    }
}

/// What one applied batch does to a projector's references and bars (what
/// `apply_batch` ensures of them).
pub open spec fn projector_step(
    before: MarketProjector,
    events: Seq<MarketEvent>,
    aggregation: BarAggregation,
    after: MarketProjector,
) -> bool {
    &&& after.mode_spec() == before.mode_spec()
    &&& after.len_spec() == before.len_spec()
    &&& after.ids() == before.ids()
    &&& after.instruments_spec() == before.instruments_spec()
    &&& forall|s: int|
        0 <= s < before.len_spec() ==> #[trigger] after.reference_spec(s) == reference_fold(
            before.reference_spec(s),
            before.ids(),
            before.mode_spec(),
            before.instruments_spec()[s].price_scale,
            s,
            events,
        )
    &&& forall|s: int, t: int|
        0 <= s < before.len_spec() && 0 <= t < 4 ==> #[trigger] after.bars_spec(s, t) == batch_bars(
            before.bars_spec(s, t),
            before.ids(),
            s,
            t,
            events,
            aggregation,
        )
}

/// Two projectors serving the same instruments with the same values and
/// bars, whatever their modes.
pub open spec fn projectors_agree(a: MarketProjector, b: MarketProjector) -> bool {
    &&& a.len_spec() == b.len_spec()
    &&& a.ids() == b.ids()
    &&& a.instruments_spec() == b.instruments_spec()
    &&& forall|s: int| 0 <= s < a.len_spec() ==> same_but_availability(#[trigger] a.reference_spec(s), b.reference_spec(s))
    &&& forall|s: int, t: int| 0 <= s < a.len_spec() && 0 <= t < 4 ==> #[trigger] a.bars_spec(s, t) == b.bars_spec(s, t)
}

/// Instruments ordered by strictly increasing identity are fixed by which
/// instruments they are.
proof fn lemma_ordered_instruments_unique(a: Seq<MarketInstrument>, b: Seq<MarketInstrument>)
    requires
        a.to_multiset() == b.to_multiset(),
        forall|i: int, j: int| 0 <= i < j < a.len() ==> (#[trigger] a[i]).id.0 < (#[trigger] a[j]).id.0,
        forall|i: int, j: int| 0 <= i < j < b.len() ==> (#[trigger] b[i]).id.0 < (#[trigger] b[j]).id.0,
    ensures
        a == b,
    decreases a.len(),
{
    broadcast use vstd::seq_lib::group_to_multiset_ensures;

    assert(a.len() == a.to_multiset().len());
    assert(b.len() == b.to_multiset().len());
    if a.len() > 0 {
        let n = a.len() - 1;
        let x = a[n];
        let y = b[n];
        assert(a.contains(x));
        assert(a.to_multiset().count(x) > 0);
        assert(b.contains(x));
        assert(b.to_multiset().count(y) > 0);
        assert(a.contains(y));
        let p = choose|p: int| 0 <= p < b.len() && b[p] == x;
        let q = choose|q: int| 0 <= q < a.len() && a[q] == y;
        assert(p == n) by {
            if p < n {
                assert(b[p].id.0 < b[n].id.0);
                if q < n {
                    assert(a[q].id.0 < a[n].id.0);
                }
            }
        }
        assert(y == x);
        assert(a.remove(n) =~= a.drop_last());
        assert(b.remove(n) =~= b.drop_last());
        assert(a.drop_last().to_multiset() =~= a.to_multiset().remove(x));
        assert(b.drop_last().to_multiset() =~= b.to_multiset().remove(x));
        lemma_ordered_instruments_unique(a.drop_last(), b.drop_last());
        assert(a =~= a.drop_last().push(x));
        assert(b =~= b.drop_last().push(x));
    } else {
        assert(a =~= b);
    }
}

/// Projectors built from the same instruments agree, whatever their modes:
/// both hold every reference unavailable and every series empty. `a` and
/// `b` are what `new` returned for `instruments`.
pub proof fn lemma_fresh_projectors_agree(a: MarketProjector, b: MarketProjector, instruments: Seq<MarketInstrument>)
    requires
        a.wf(),
        b.wf(),
        a.instruments_spec().to_multiset() == instruments.to_multiset(),
        b.instruments_spec().to_multiset() == instruments.to_multiset(),
        a.len_spec() == instruments.len(),
        b.len_spec() == instruments.len(),
        forall|s: int|
            0 <= s < a.len_spec() ==> (#[trigger] a.reference_spec(s)) == (ReferenceValueSnapshot {
                value_scaled: 0,
                price_scale: a.instruments_spec()[s].price_scale,
                meta: unavailable_meta(Availability::AwaitingFirstReceipt),
            }),
        forall|s: int|
            0 <= s < b.len_spec() ==> (#[trigger] b.reference_spec(s)) == (ReferenceValueSnapshot {
                value_scaled: 0,
                price_scale: b.instruments_spec()[s].price_scale,
                meta: unavailable_meta(Availability::AwaitingFirstReceipt),
            }),
        forall|s: int, t: int| 0 <= s < a.len_spec() && 0 <= t < 4 ==> (#[trigger] a.bars_spec(s, t)).len() == 0,
        forall|s: int, t: int| 0 <= s < b.len_spec() && 0 <= t < 4 ==> (#[trigger] b.bars_spec(s, t)).len() == 0,
    ensures
        projectors_agree(a, b),
{
    a.lemma_wf();
    b.lemma_wf();
    assert forall|i: int, j: int| 0 <= i < j < a.instruments_spec().len() implies (#[trigger] a.instruments_spec()[i]).id.0
        < (#[trigger] a.instruments_spec()[j]).id.0 by {
        assert(a.ids()[i] == a.instruments_spec()[i].id && a.ids()[j] == a.instruments_spec()[j].id);
    }
    assert forall|i: int, j: int| 0 <= i < j < b.instruments_spec().len() implies (#[trigger] b.instruments_spec()[i]).id.0
        < (#[trigger] b.instruments_spec()[j]).id.0 by {
        assert(b.ids()[i] == b.instruments_spec()[i].id && b.ids()[j] == b.instruments_spec()[j].id);
    }
    lemma_ordered_instruments_unique(a.instruments_spec(), b.instruments_spec());
    assert(a.ids() =~= b.ids()) by {
        assert forall|i: int| 0 <= i < a.ids().len() implies a.ids()[i] == b.ids()[i] by {
            assert(a.ids()[i] == a.instruments_spec()[i].id && b.ids()[i] == b.instruments_spec()[i].id);
        }
    }
    assert forall|s: int, t: int| 0 <= s < a.len_spec() && 0 <= t < 4 implies #[trigger] a.bars_spec(s, t) == b.bars_spec(
        s,
        t,
    ) by {
        assert(a.bars_spec(s, t) =~= b.bars_spec(s, t));
    }
    assert forall|s: int| 0 <= s < a.len_spec() implies same_but_availability(#[trigger] a.reference_spec(s), b.reference_spec(s)) by {
        assert(a.reference_spec(s) == b.reference_spec(s));
    }
}

/// One batch keeps two agreeing projectors in agreement; a replaying
/// projector's references read replaying or what they read before.
proof fn lemma_agree_step(
    a: MarketProjector,
    b: MarketProjector,
    c: MarketProjector,
    d: MarketProjector,
    events: Seq<MarketEvent>,
    aggregation: BarAggregation,
)
    requires
        projectors_agree(a, b),
        projector_step(a, events, aggregation, c),
        projector_step(b, events, aggregation, d),
    ensures
        projectors_agree(c, d),
        d.mode_spec() == b.mode_spec(),
        d.len_spec() == b.len_spec(),
        b.mode_spec() == OperatingMode::OfflineReplay ==> forall|s: int|
            0 <= s < b.len_spec() ==> {
                let availability = (#[trigger] d.reference_spec(s)).meta.availability;
                availability == b.reference_spec(s).meta.availability || availability == Availability::Replaying
            },
{
    assert forall|s: int| 0 <= s < c.len_spec() implies same_but_availability(#[trigger] c.reference_spec(s), d.reference_spec(s)) by {
        lemma_reference_folds_agree(
            a.reference_spec(s),
            b.reference_spec(s),
            a.ids(),
            a.mode_spec(),
            b.mode_spec(),
            a.instruments_spec()[s].price_scale,
            s,
            events,
        );
    }
    assert forall|s: int, t: int| 0 <= s < c.len_spec() && 0 <= t < 4 implies #[trigger] c.bars_spec(s, t) == d.bars_spec(
        s,
        t,
    ) by {
        assert(c.bars_spec(s, t) == batch_bars(a.bars_spec(s, t), a.ids(), s, t, events, aggregation));
        assert(d.bars_spec(s, t) == batch_bars(b.bars_spec(s, t), b.ids(), s, t, events, aggregation));
    }
    if b.mode_spec() == OperatingMode::OfflineReplay {
        assert forall|s: int| 0 <= s < b.len_spec() implies {
            let availability = (#[trigger] d.reference_spec(s)).meta.availability;
            availability == b.reference_spec(s).meta.availability || availability == Availability::Replaying
        } by {
            lemma_reference_folds_agree(
                b.reference_spec(s),
                b.reference_spec(s),
                b.ids(),
                b.mode_spec(),
                b.mode_spec(),
                b.instruments_spec()[s].price_scale,
                s,
                events,
            );
        }
    }
}

/// Live and replay publish identical values and bars over any run of
/// batches: two projectors that agree at the start and apply the same
/// batches with the same aggregated bars, each in its own mode, still agree
/// after every batch; and when the second replays, each reference reads
/// replaying or what it read at the start. `live[k]` and `replay[k]` are the
/// projectors before `batches[k]`.
pub proof fn lemma_live_and_replay_agree(
    live: Seq<MarketProjector>,
    replay: Seq<MarketProjector>,
    batches: Seq<Seq<MarketEvent>>,
    aggregations: Seq<BarAggregation>,
)
    requires
        live.len() == batches.len() + 1,
        replay.len() == batches.len() + 1,
        aggregations.len() == batches.len(),
        projectors_agree(live[0], replay[0]),
        forall|k: int| 0 <= k < batches.len() ==> projector_step(#[trigger] live[k], batches[k], aggregations[k], live[k + 1]),
        forall|k: int| 0 <= k < batches.len() ==> projector_step(#[trigger] replay[k], batches[k], aggregations[k], replay[k + 1]),
    ensures
        projectors_agree(live[batches.len() as int], replay[batches.len() as int]),
        replay[batches.len() as int].mode_spec() == replay[0].mode_spec(),
        replay[batches.len() as int].len_spec() == replay[0].len_spec(),
        replay[0].mode_spec() == OperatingMode::OfflineReplay ==> forall|s: int|
            0 <= s < replay[0].len_spec() ==> {
                let availability = (#[trigger] replay[batches.len() as int].reference_spec(s)).meta.availability;
                availability == replay[0].reference_spec(s).meta.availability || availability == Availability::Replaying
            },
    decreases batches.len(),
{
    if batches.len() > 0 {
        let n = batches.len() - 1;
        let (l2, r2, b2, g2) = (live.take(n + 1), replay.take(n + 1), batches.take(n), aggregations.take(n));
        assert forall|k: int| 0 <= k < b2.len() implies projector_step(#[trigger] l2[k], b2[k], g2[k], l2[k + 1]) by {
            assert(projector_step(live[k], batches[k], aggregations[k], live[k + 1]));
        }
        assert forall|k: int| 0 <= k < b2.len() implies projector_step(#[trigger] r2[k], b2[k], g2[k], r2[k + 1]) by {
            assert(projector_step(replay[k], batches[k], aggregations[k], replay[k + 1]));
        }
        assert(l2[0] == live[0] && r2[0] == replay[0]);
        lemma_live_and_replay_agree(l2, r2, b2, g2);
        assert(l2[n] == live[n] && r2[n] == replay[n]);
        assert(projector_step(live[n], batches[n], aggregations[n], live[n + 1]));
        assert(projector_step(replay[n], batches[n], aggregations[n], replay[n + 1]));
        lemma_agree_step(live[n], replay[n], live[n + 1], replay[n + 1], batches[n], aggregations[n]);
    }
}

} // verus!
