//! The structural engine of one instrument: producers, level book, node graph,
//! chart projection and market location, driven bar by bar.

use super::contracts::{
    MarketLocationSnapshot, Price, PriceSpace, StructuralGraphSnapshot, StructuralMarketSnapshot,
    StructuralMutation, StructuralObject, StructuralQuality, price_only_quality,
    unavailable_location,
};
use super::graph::{NodeBook, NodeMergeSpec, genealogy_names, graph_sound, identity_follows, speaks_of_previous};
use super::level_book::{
    LevelBook, LevelBookError, apply_batch_spec, geometry_valid, is_active_snapshot,
    next_generation, validate_batch,
};
use super::location::{distances_fit, first_not_below, locate_market, locate_spec};
use super::producers::opening_range::{OpeningRangeProducer, OpeningRangeSpec};
use super::producers::range_projection::{projection_spec_valid, RangeProjectionProducer, RangeProjectionSpec};
use super::producers::sessions::SessionStructureProducer;
use super::producers::{ProducerError, calendar_session, find_session, stream_check};
use super::projection::{
    ChartStructureSnapshot, bands_faithful, lines_faithful, project_chart_structure,
};
use crate::data_plane::{
    CanonicalBar, DerivationVersion, InstrumentId, JournalSequence, Session, SessionCalendar,
    timeframe_from_code_spec,
};
use std::sync::Arc;
use vstd::prelude::*;

verus! {

/// Number of true ranges averaged into the ATR.
pub const ATR_PERIOD: usize = 14;

/// Why the engine refused a configuration or a bar.
#[derive(Clone, Copy, Debug, PartialEq, Eq, Structural)]
pub enum StructuralEngineError {
    InvalidConfiguration,
    WrongInstrument,
    WrongTimeframe,
    WrongDerivationVersion,
    RevisionRequiresRederivation,
    Producer(ProducerError),
    LevelBook(LevelBookError),
}

/// What one accepted bar produced.
pub struct StructuralUpdate {
    pub snapshot: Arc<StructuralMarketSnapshot>,
    pub chart: Arc<ChartStructureSnapshot>,
    pub mutations: Vec<StructuralMutation>,
    pub geometry_changed: bool,
}

/// Sum of true ranges.
pub open spec fn range_sum(ranges: Seq<i64>) -> int
    decreases ranges.len(),
{
    if ranges.len() == 0 {
        0
    } else {
        range_sum(ranges.drop_last()) + ranges.last()
    }
}

/// Absolute value.
pub open spec fn abs_int(value: int) -> int {
    if value < 0 {
        -value
    } else {
        value
    }
}

/// Larger of two integers.
pub open spec fn larger(a: int, b: int) -> int {
    if a >= b {
        a
    } else {
        b
    }
}

/// True range of a bar against the previous close, saturating at `i64::MAX`.
pub open spec fn true_range_spec(bar: CanonicalBar, previous_close: Option<i64>) -> i64 {
    let base = bar.high - bar.low;
    let full = match previous_close {
        None => base,
        Some(close) => larger(base, larger(abs_int(bar.high - close), abs_int(bar.low - close))),
    };
    if full > i64::MAX {
        i64::MAX
    } else {
        full as i64
    }
}

/// The ATR window after a true range enters it.
pub open spec fn next_ranges(ranges: Seq<i64>, true_range: i64) -> Seq<i64> {
    let pushed = ranges.push(true_range);
    if pushed.len() > ATR_PERIOD {
        pushed.drop_first()
    } else {
        pushed
    }
}

/// Truncated mean of a non-empty window.
pub open spec fn mean_range(ranges: Seq<i64>) -> i64 {
    (range_sum(ranges) / ranges.len() as int) as i64
}

/// A window of non-negative true ranges.
pub open spec fn ranges_valid(ranges: Seq<i64>) -> bool {
    forall|i: int| 0 <= i < ranges.len() ==> #[trigger] ranges[i] >= 0
}

/// A window's sum is at most its length times the largest `i64`.
proof fn lemma_sum_bounds(ranges: Seq<i64>)
    requires
        ranges_valid(ranges),
    ensures
        0 <= range_sum(ranges) <= ranges.len() * i64::MAX,
    decreases ranges.len(),
{
    if ranges.len() > 0 {
        assert(ranges_valid(ranges.drop_last())) by {
            assert forall|i: int| 0 <= i < ranges.drop_last().len() implies #[trigger] ranges.drop_last()[i] >= 0 by {
                assert(ranges.drop_last()[i] == ranges[i]);
            }
        }
        lemma_sum_bounds(ranges.drop_last());
        assert(ranges[ranges.len() - 1] >= 0);
    }
}

/// Dropping the first range removes it from the sum.
proof fn lemma_sum_drop_first(ranges: Seq<i64>)
    requires
        ranges.len() > 0,
    ensures
        range_sum(ranges) == ranges[0] + range_sum(ranges.drop_first()),
    decreases ranges.len(),
{
    let first = ranges.drop_first();
    assert(range_sum(ranges) == range_sum(ranges.drop_last()) + ranges.last());
    if ranges.len() > 1 {
        lemma_sum_drop_first(ranges.drop_last());
        assert(ranges.drop_last().drop_first() =~= first.drop_last());
        assert(range_sum(first) == range_sum(first.drop_last()) + first.last());
        assert(first.last() == ranges.last());
        assert(ranges.drop_last()[0] == ranges[0]);
    } else {
        assert(first.len() == 0);
        assert(range_sum(ranges.drop_last()) == 0);
    }
}

/// Rolling average true range.
struct AtrTracker {
    ranges: Vec<i64>,
    sum: i128,
    previous_close: Option<i64>,
}

impl AtrTracker {
    spec fn wf(&self) -> bool {
        &&& self.sum == range_sum(self.ranges@)
        &&& self.ranges@.len() <= ATR_PERIOD
        &&& ranges_valid(self.ranges@)
    }

    fn new() -> (tracker: AtrTracker)
        ensures
            tracker.wf(),
            tracker.ranges@.len() == 0,
            tracker.previous_close is None,
    {
        AtrTracker { ranges: Vec::new(), sum: 0, previous_close: None }
    }

    /// Feeds a bar; returns the mean true range of the window.
    fn push(&mut self, bar: &CanonicalBar) -> (atr: i64)
        requires
            old(self).wf(),
            bar.low <= bar.high,
        ensures
            final(self).wf(),
            final(self).ranges@ == next_ranges(
                old(self).ranges@,
                true_range_spec(*bar, old(self).previous_close),
            ),
            final(self).previous_close == Some(bar.close),
            atr == mean_range(final(self).ranges@),
    {
        let base: i128 = bar.high as i128 - bar.low as i128;
        let full: i128 = match self.previous_close {
            None => base,
            Some(close) => {
                let up: i128 = bar.high as i128 - close as i128;
                let up_abs: i128 = if up < 0 {
                    -up
                } else {
                    up
                };
                let down: i128 = bar.low as i128 - close as i128;
                let down_abs: i128 = if down < 0 {
                    -down
                } else {
                    down
                };
                let wider: i128 = if up_abs >= down_abs {
                    up_abs
                } else {
                    down_abs
                };
                if base >= wider {
                    base
                } else {
                    wider
                }
            },
        };
        let true_range: i64 = if full > i64::MAX as i128 {
            i64::MAX
        } else {
            full as i64
        };
        let ghost before = self.ranges@;
        self.previous_close = Some(bar.close);
        proof {
            lemma_sum_bounds(before);
        }
        self.ranges.push(true_range);
        self.sum = self.sum + true_range as i128;
        proof {
            assert(self.ranges@.drop_last() =~= before);
            assert forall|i: int| 0 <= i < self.ranges@.len() implies #[trigger] self.ranges@[i] >= 0 by {
                if i < before.len() {
                    assert(self.ranges@[i] == before[i]);
                }
            }
        }
        if self.ranges.len() > ATR_PERIOD {
            let ghost full_window = self.ranges@;
            let expired = self.ranges.remove(0);
            proof {
                lemma_sum_drop_first(full_window);
                assert(self.ranges@ =~= full_window.drop_first());
                assert forall|i: int| 0 <= i < self.ranges@.len() implies #[trigger] self.ranges@[i] >= 0 by {
                    assert(self.ranges@[i] == full_window[i + 1]);
                }
            }
            self.sum = self.sum - expired as i128;
        }
        proof {
            lemma_sum_bounds(self.ranges@);
            assert(self.ranges@.len() * i64::MAX <= ATR_PERIOD * i64::MAX) by (nonlinear_arith)
                requires
                    self.ranges@.len() <= ATR_PERIOD,
            ;
            assert(range_sum(self.ranges@) / (self.ranges@.len() as int) <= i64::MAX) by (nonlinear_arith)
                requires
                    0 <= range_sum(self.ranges@) <= self.ranges@.len() * i64::MAX,
                    self.ranges@.len() > 0,
            ;
            assert(0 <= range_sum(self.ranges@) / (self.ranges@.len() as int)) by (nonlinear_arith)
                requires
                    0 <= range_sum(self.ranges@),
                    self.ranges@.len() > 0,
            ;
        }
        let count = self.ranges.len() as i128;
        (self.sum / count) as i64
    }
}

/// Where the last bar stood in its session.
#[derive(Clone, Copy, Debug, PartialEq, Eq, Structural)]
pub struct BarContinuity {
    pub bar_close_ns: i64,
    pub session_open_ns: i64,
    pub session_close_ns: i64,
}

/// Whether `bar` in `session` leaves a hole in the bar stream. A scheduled
/// break between sessions is no hole; a session entered late, left early or
/// a missing bar inside a session is.
pub open spec fn gap_spec(continuity: Option<BarContinuity>, bar: CanonicalBar, session: Session) -> bool {
    match continuity {
        None => bar.ts_open_ns != session.open_ns,
        Some(previous) => if previous.session_open_ns == session.open_ns {
            bar.ts_open_ns > previous.bar_close_ns
        } else {
            previous.bar_close_ns != previous.session_close_ns || bar.ts_open_ns != session.open_ns
        },
    }
}

/// What the engine checks of a bar before any producer sees it.
pub open spec fn engine_bar_check(bar: CanonicalBar, instrument: InstrumentId, version: DerivationVersion) -> Option<
    StructuralEngineError,
> {
    if bar.instrument_id != instrument.0 {
        Some(StructuralEngineError::WrongInstrument)
    } else if bar.timeframe != 1 {
        Some(StructuralEngineError::WrongTimeframe)
    } else if bar.derivation_version != version.0 {
        Some(StructuralEngineError::WrongDerivationVersion)
    } else if bar.revision > 0 {
        Some(StructuralEngineError::RevisionRequiresRederivation)
    } else {
        None
    }
}

/// A configuration the engine accepts before its producers are built.
pub open spec fn configuration_valid(
    instrument: InstrumentId,
    version: DerivationVersion,
    tick_size: i64,
    noise_floor: i64,
) -> bool {
    instrument.0 != 0 && instrument.0 <= u16::MAX && version.0 != 0 && tick_size > 0 && noise_floor >= 0
}

/// The structural engine of one instrument and price space.
pub struct StructuralEngine {
    instrument: InstrumentId,
    price_space: PriceSpace,
    derivation_version: DerivationVersion,
    calendar: Arc<SessionCalendar>,
    session: SessionStructureProducer,
    opening_range: OpeningRangeProducer,
    range_projection: RangeProjectionProducer,
    level_book: LevelBook,
    node_book: NodeBook,
    merge_spec: NodeMergeSpec,
    tick_size: i64,
    noise_floor: i64,
    atr: AtrTracker,
    atr_value: i64,
    chart: Arc<ChartStructureSnapshot>,
    graph: Arc<StructuralGraphSnapshot>,
    continuity: Option<BarContinuity>,
    gaps_present: bool,
}

impl StructuralEngine {
    /// Instrument the engine serves.
    pub closed spec fn instrument_spec(&self) -> InstrumentId {
        self.instrument
    }

    /// Price space the engine serves.
    pub closed spec fn price_space_spec(&self) -> PriceSpace {
        self.price_space
    }

    /// Derivation version bars must carry.
    pub closed spec fn version_spec(&self) -> DerivationVersion {
        self.derivation_version
    }

    /// Every object the level book holds.
    pub closed spec fn objects_spec(&self) -> Seq<StructuralObject> {
        self.level_book.objects_spec()
    }

    /// Generation of the level book.
    pub closed spec fn generation_spec(&self) -> u64 {
        self.level_book.generation_spec()
    }

    /// The current node graph.
    pub closed spec fn graph_spec(&self) -> StructuralGraphSnapshot {
        *self.graph
    }

    /// The current chart projection.
    pub closed spec fn chart_spec(&self) -> ChartStructureSnapshot {
        *self.chart
    }

    /// Whether a hole in the bar stream has been seen.
    pub closed spec fn gaps_spec(&self) -> bool {
        self.gaps_present
    }

    /// Where the last accepted bar stood.
    pub closed spec fn continuity_spec(&self) -> Option<BarContinuity> {
        self.continuity
    }

    /// The current average true range.
    pub closed spec fn atr_spec(&self) -> i64 {
        self.atr_value
    }

    /// The calendar the engine reads.
    pub closed spec fn calendar_spec(&self) -> SessionCalendar {
        *self.calendar
    }

    /// The session-structure producer.
    pub closed spec fn session_producer(&self) -> SessionStructureProducer {
        self.session
    }

    /// The opening-range producer.
    pub closed spec fn opening_producer(&self) -> OpeningRangeProducer {
        self.opening_range
    }

    /// The range-projection producer.
    pub closed spec fn projection_producer(&self) -> RangeProjectionProducer {
        self.range_projection
    }

    /// The engine's invariant: its producers serve its instrument, read its
    /// calendar and have seen the same bars.
    pub closed spec fn wf(&self) -> bool {
        &&& self.calendar.wf()
        &&& self.session.wf()
        &&& self.opening_range.wf()
        &&& self.range_projection.wf()
        &&& self.level_book.wf()
        &&& self.node_book.wf()
        &&& *self.graph == self.node_book.snapshot_spec()
        &&& self.atr.wf()
        &&& self.session.instrument_spec() == self.instrument
        &&& self.opening_range.instrument_spec() == self.instrument
        &&& self.range_projection.instrument_spec() == self.instrument
        &&& self.session.calendar_spec() == *self.calendar
        &&& self.opening_range.calendar_spec() == *self.calendar
        &&& self.opening_range.last_open_spec() == self.session.last_open_spec()
        &&& self.range_projection.last_open_spec() == self.session.last_open_spec()
        &&& self.derivation_version.0 != 0
        &&& self.tick_size > 0
        &&& self.noise_floor >= 0
    }

    /// The mutations all producers emit for an accepted bar, in producer
    /// order: session structure, opening range, range projection.
    pub open spec fn emitted(&self, bar: CanonicalBar) -> Seq<StructuralMutation> {
        self.session_producer().next(bar).4 + self.opening_producer().next(bar).1
            + self.projection_producer().outcome(bar).1
    }

    /// Why the engine refuses `bar`, if it does.
    pub open spec fn failure(&self, bar: CanonicalBar) -> Option<StructuralEngineError> {
        if engine_bar_check(bar, self.instrument_spec(), self.version_spec()) is Some {
            engine_bar_check(bar, self.instrument_spec(), self.version_spec())
        } else if calendar_session(self.calendar_spec(), self.instrument_spec(), bar.ts_open_ns) is None {
            Some(StructuralEngineError::Producer(ProducerError::OutsideSession { bar_open_ns: bar.ts_open_ns }))
        } else if self.session_producer().check(bar) is Some {
            Some(StructuralEngineError::Producer(self.session_producer().check(bar).unwrap()))
        } else if self.emitted(bar).len() > 0 && validate_batch(self.objects_spec(), self.emitted(bar)) is Err {
            Some(StructuralEngineError::LevelBook(validate_batch(self.objects_spec(), self.emitted(bar))->Err_0))
        } else {
            None
        }
    }

    /// An engine for `instrument` in `price_space`. Refuses a zero or wide
    /// instrument, a zero derivation version, a non-positive tick or a
    /// negative noise floor, then any producer specification its producer
    /// refuses; succeeds exactly when none of these holds.
    pub fn new(
        instrument: InstrumentId,
        price_space: PriceSpace,
        calendar: Arc<SessionCalendar>,
        derivation_version: DerivationVersion,
        tick_size: i64,
        noise_floor: i64,
        opening_range_spec: OpeningRangeSpec,
        range_projection_spec: RangeProjectionSpec,
        merge_spec: NodeMergeSpec,
    ) -> (result: Result<StructuralEngine, StructuralEngineError>)
        requires
            calendar.wf(),
        ensures
            match result {
                Ok(engine) => {
                    &&& configuration_valid(instrument, derivation_version, tick_size, noise_floor)
                    &&& opening_range_spec.duration_ns > 0
                    &&& projection_spec_valid(range_projection_spec.lookback_bars, range_projection_spec.fractions_ppm@)
                    &&& engine.wf()
                    &&& engine.instrument_spec() == instrument
                    &&& engine.price_space_spec() == price_space
                    &&& engine.objects_spec().len() == 0
                    &&& engine.generation_spec() == 0
                    &&& engine.graph_spec().generation == 0
                    &&& engine.graph_spec().nodes@.len() == 0
                    &&& engine.continuity_spec() is None
                    &&& !engine.gaps_spec()
                },
                Err(error) => if !configuration_valid(instrument, derivation_version, tick_size, noise_floor) {
                    error == StructuralEngineError::InvalidConfiguration
                } else if opening_range_spec.duration_ns <= 0 {
                    error == StructuralEngineError::Producer(ProducerError::InvalidOpeningRange)
                } else {
                    &&& !projection_spec_valid(range_projection_spec.lookback_bars, range_projection_spec.fractions_ppm@)
                    &&& error == StructuralEngineError::Producer(ProducerError::InvalidRangeProjection)
                },
            },
    {
        if instrument.get() == 0 || instrument.get() > 0xFFFF || derivation_version.get() == 0
            || tick_size <= 0 || noise_floor < 0 {
            return Err(StructuralEngineError::InvalidConfiguration);
        }
        let session = SessionStructureProducer::new(
            instrument,
            price_space,
            Arc::clone(&calendar),
            derivation_version,
        );
        let opening_range = match OpeningRangeProducer::new(
            instrument,
            price_space,
            Arc::clone(&calendar),
            derivation_version,
            opening_range_spec,
        ) {
            Ok(producer) => producer,
            Err(error) => return Err(StructuralEngineError::Producer(error)),
        };
        let range_projection = match RangeProjectionProducer::new(
            instrument,
            price_space,
            calendar.id(),
            derivation_version,
            range_projection_spec,
        ) {
            Ok(producer) => producer,
            Err(error) => return Err(StructuralEngineError::Producer(error)),
        };
        let node_book = NodeBook::new();
        let graph = node_book.snapshot();
        let no_objects: Vec<StructuralObject> = Vec::new();
        let chart = Arc::new(project_chart_structure(instrument, 0, no_objects.as_slice(), Arc::clone(&graph)));
        Ok(
            StructuralEngine {
                instrument,
                price_space,
                derivation_version,
                calendar,
                session,
                opening_range,
                range_projection,
                level_book: LevelBook::new(),
                node_book,
                merge_spec,
                tick_size,
                noise_floor,
                atr: AtrTracker::new(),
                atr_value: 0,
                chart,
                graph,
                continuity: None,
                gaps_present: false,
            },
        )
    }

    /// The engine's own bar checks.
    fn validate_bar(&self, bar: &CanonicalBar) -> (result: Result<(), StructuralEngineError>)
        ensures
            match engine_bar_check(*bar, self.instrument, self.derivation_version) {
                Some(error) => result == Err::<(), StructuralEngineError>(error),
                None => result is Ok,
            },
    {
        if bar.instrument_id != self.instrument.get() {
            return Err(StructuralEngineError::WrongInstrument);
        }
        if bar.timeframe != 1 {
            return Err(StructuralEngineError::WrongTimeframe);
        }
        if bar.derivation_version != self.derivation_version.get() {
            return Err(StructuralEngineError::WrongDerivationVersion);
        }
        if bar.revision > 0 {
            return Err(StructuralEngineError::RevisionRequiresRederivation);
        }
        Ok(())
    }

    /// Records the bar's place in its session and whether it leaves a hole.
    fn update_continuity(&mut self, bar: &CanonicalBar, session: Session)
        ensures
            final(self).gaps_present == (old(self).gaps_present || gap_spec(old(self).continuity, *bar, session)),
            final(self).continuity == Some(
                BarContinuity {
                    bar_close_ns: bar.ts_close_ns,
                    session_open_ns: session.open_ns,
                    session_close_ns: session.close_ns,
                },
            ),
            final(self).instrument == old(self).instrument,
            final(self).price_space == old(self).price_space,
            final(self).derivation_version == old(self).derivation_version,
            final(self).calendar == old(self).calendar,
            final(self).session == old(self).session,
            final(self).opening_range == old(self).opening_range,
            final(self).range_projection == old(self).range_projection,
            final(self).level_book == old(self).level_book,
            final(self).node_book == old(self).node_book,
            final(self).merge_spec == old(self).merge_spec,
            final(self).tick_size == old(self).tick_size,
            final(self).noise_floor == old(self).noise_floor,
            final(self).atr == old(self).atr,
            final(self).atr_value == old(self).atr_value,
            final(self).chart == old(self).chart,
            final(self).graph == old(self).graph,
    {
        let gap = match self.continuity {
            None => bar.ts_open_ns != session.open_ns,
            Some(previous) => if previous.session_open_ns == session.open_ns {
                bar.ts_open_ns > previous.bar_close_ns
            } else {
                previous.bar_close_ns != previous.session_close_ns || bar.ts_open_ns != session.open_ns
            },
        };
        self.gaps_present = self.gaps_present || gap;
        self.continuity = Some(
            BarContinuity {
                bar_close_ns: bar.ts_close_ns,
                session_open_ns: session.open_ns,
                session_close_ns: session.close_ns,
            },
        );
    }

    /// The market snapshot for `price` against the current structure.
    fn snapshot(&self, price: Price, as_of_ns: i64, sequence: JournalSequence, levels: Arc<Vec<StructuralObject>>) -> (snapshot:
        StructuralMarketSnapshot)
        ensures
            snapshot.instrument_id == self.instrument,
            snapshot.price_space == self.price_space,
            snapshot.as_of_ns == as_of_ns,
            snapshot.journal_sequence == sequence,
            snapshot.derivation_generation == self.level_book.generation_spec(),
            snapshot.reference_price == price,
            snapshot.levels@ == levels@,
            snapshot.graph == self.graph,
            snapshot.quality == (StructuralQuality { gaps_present: self.gaps_present, ..price_only_quality() }),
            location_follows(snapshot.location, *self.graph, price, self.atr_value),
    {
        let mut quality = StructuralQuality::price_only();
        quality.gaps_present = self.gaps_present;
        StructuralMarketSnapshot {
            instrument_id: self.instrument,
            price_space: self.price_space,
            as_of_ns,
            journal_sequence: sequence,
            derivation_generation: self.level_book.generation(),
            reference_price: price,
            levels,
            graph: Arc::clone(&self.graph),
            location: locate_checked(&self.graph, price, self.atr_value),
            quality,
        }
    }

    /// Feeds one M4 bar through the producers, the level book, the node graph
    /// and the chart projection, and locates the bar's close.
    #[verifier::rlimit(60)]
    pub fn on_bar(&mut self, bar: &CanonicalBar) -> (result: Result<StructuralUpdate, StructuralEngineError>)
        requires
            old(self).wf(),
        ensures
            final(self).wf(),
            final(self).instrument_spec() == old(self).instrument_spec(),
            final(self).price_space_spec() == old(self).price_space_spec(),
            match result {
                Err(error) => {
                    &&& old(self).failure(*bar) == Some(error)
                    &&& (error matches StructuralEngineError::LevelBook(_) || *final(self) == *old(self))
                },
                Ok(update) => {
                    &&& old(self).failure(*bar) is None
                    &&& accepted_step(*old(self), *bar, *final(self))
                    &&& update.mutations@ == old(self).emitted(*bar)
                    &&& update.geometry_changed == (update.mutations@.len() > 0)
                    &&& final(self).objects_spec() == if update.geometry_changed {
                        apply_batch_spec(old(self).objects_spec(), update.mutations@)
                    } else {
                        old(self).objects_spec()
                    }
                    &&& final(self).generation_spec() == if update.geometry_changed {
                        next_generation(old(self).generation_spec())
                    } else {
                        old(self).generation_spec()
                    }
                    &&& final(self).gaps_spec() == (old(self).gaps_spec() || gap_spec(
                        old(self).continuity_spec(),
                        *bar,
                        calendar_session(old(self).calendar_spec(), old(self).instrument_spec(), bar.ts_open_ns).unwrap(),
                    ))
                    &&& is_active_snapshot(final(self).objects_spec(), update.snapshot.levels@)
                    &&& update.snapshot.instrument_id == final(self).instrument_spec()
                    &&& update.snapshot.price_space == final(self).price_space_spec()
                    &&& update.snapshot.as_of_ns == bar.ts_close_ns
                    &&& update.snapshot.journal_sequence == JournalSequence(bar.last_sequence)
                    &&& update.snapshot.derivation_generation == final(self).generation_spec()
                    &&& update.snapshot.reference_price == bar.close
                    &&& *update.snapshot.graph == final(self).graph_spec()
                    &&& update.snapshot.quality == (StructuralQuality {
                        gaps_present: final(self).gaps_spec(),
                        ..price_only_quality()
                    })
                    &&& location_follows(
                        update.snapshot.location,
                        final(self).graph_spec(),
                        bar.close,
                        final(self).atr_spec(),
                    )
                    &&& update.geometry_changed ==> {
                        &&& graph_sound(
                            final(self).graph_spec(),
                            update.snapshot.levels@,
                            final(self).instrument_spec(),
                            final(self).price_space_spec(),
                            final(self).atr_spec() as int,
                        )
                        &&& forall|i: int|
                            0 <= i < final(self).graph_spec().nodes@.len() ==> identity_follows(
                                #[trigger] final(self).graph_spec().nodes@[i],
                                old(self).graph_spec().nodes@,
                                final(self).instrument_spec(),
                                bar.ts_close_ns,
                            )
                        &&& forall|i: int|
                            0 <= i < final(self).graph_spec().nodes@.len() ==> genealogy_names(
                                final(self).graph_spec().genealogy@,
                                (#[trigger] final(self).graph_spec().nodes@[i]).id,
                            )
                        &&& forall|k: int|
                            0 <= k < final(self).graph_spec().genealogy@.len() ==> speaks_of_previous(
                                #[trigger] final(self).graph_spec().genealogy@[k],
                                old(self).graph_spec().nodes@,
                            )
                        &&& lines_faithful(update.chart.lines@, update.snapshot.levels@)
                        &&& bands_faithful(update.chart.bands@, update.snapshot.levels@)
                        &&& update.chart.generation == final(self).generation_spec()
                    }
                    &&& !update.geometry_changed ==> final(self).graph_spec() == old(self).graph_spec()
                },
            },
    {
        if let Err(error) = self.validate_bar(bar) {
            return Err(error);
        }
        let session = match find_session(&self.calendar, self.instrument, bar.ts_open_ns) {
            Some(session) => session,
            None => {
                return Err(
                    StructuralEngineError::Producer(ProducerError::OutsideSession { bar_open_ns: bar.ts_open_ns }),
                );
            },
        };
        let mut mutations: Vec<StructuralMutation> = Vec::new();
        if let Err(error) = self.session.on_bar(bar, &mut mutations) {
            return Err(StructuralEngineError::Producer(error));
        }
        let ghost after_session = mutations@;
        if let Err(error) = self.opening_range.on_bar(bar, &mut mutations) {
            proof {
                assert(false);
            }
            return Err(StructuralEngineError::Producer(error));
        }
        if let Err(error) = self.range_projection.on_bar(bar, &mut mutations) {
            proof {
                assert(false);
            }
            return Err(StructuralEngineError::Producer(error));
        }
        proof {
            assert(mutations@ =~= old(self).emitted(*bar));
        }
        self.update_continuity(bar, session);
        self.atr_value = self.atr.push(bar);
        let geometry_changed = mutations.len() > 0;
        let mut generation = self.level_book.generation();
        if geometry_changed {
            generation = if generation == u64::MAX {
                u64::MAX
            } else {
                generation + 1
            };
            if let Err(error) = self.level_book.apply_batch(generation, mutations.as_slice()) {
                return Err(StructuralEngineError::LevelBook(error));
            }
        }
        let levels = self.level_book.active_snapshot();
        if geometry_changed {
            proof {
                self.level_book.lemma_geometry();
                assert forall|i: int| 0 <= i < levels@.len() implies (#[trigger] levels@[i]).lower_spec()
                    <= levels@[i].upper_spec() by {
                    assert(levels@.contains(levels@[i]));
                    let j = choose|j: int| 0 <= j < self.level_book.objects_spec().len() && self.level_book.objects_spec()[j] == levels@[i];
                    assert(geometry_valid(self.level_book.objects_spec()));
                }
            }
            self.graph = self.node_book.rebuild(
                levels.as_slice(),
                self.instrument,
                self.price_space,
                bar.ts_close_ns,
                self.atr_value,
                self.noise_floor,
                self.tick_size,
                self.merge_spec,
            );
            self.chart = Arc::new(
                project_chart_structure(self.instrument, generation, levels.as_slice(), Arc::clone(&self.graph)),
            );
        }
        let snapshot = self.snapshot(bar.close, bar.ts_close_ns, JournalSequence(bar.last_sequence), levels);
        Ok(
            StructuralUpdate {
                snapshot: Arc::new(snapshot),
                chart: Arc::clone(&self.chart),
                mutations,
                geometry_changed,
            },
        )
    }

    /// Fast path for a live price: locates it against the current structure
    /// and shares the current graph.
    pub fn locate_price(&mut self, price: Price, as_of_ns: i64, sequence: JournalSequence) -> (snapshot: Arc<
        StructuralMarketSnapshot,
    >)
        requires
            old(self).wf(),
        ensures
            final(self).wf(),
            final(self).objects_spec() == old(self).objects_spec(),
            final(self).graph_spec() == old(self).graph_spec(),
            is_active_snapshot(old(self).objects_spec(), snapshot.levels@),
            snapshot.instrument_id == old(self).instrument_spec(),
            snapshot.price_space == old(self).price_space_spec(),
            snapshot.derivation_generation == old(self).generation_spec(),
            snapshot.quality == (StructuralQuality { gaps_present: old(self).gaps_spec(), ..price_only_quality() }),
            snapshot.reference_price == price,
            snapshot.as_of_ns == as_of_ns,
            snapshot.journal_sequence == sequence,
            *snapshot.graph == old(self).graph_spec(),
            location_follows(snapshot.location, old(self).graph_spec(), price, old(self).atr_spec()),
    {
        let levels = self.level_book.active_snapshot();
        Arc::new(self.snapshot(price, as_of_ns, sequence, levels))
    }

    /// The current chart projection.
    pub fn chart_snapshot(&self) -> (chart: Arc<ChartStructureSnapshot>)
        ensures
            *chart == self.chart_spec(),
    {
        Arc::clone(&self.chart)
    }

    /// The current node graph.
    pub fn graph_snapshot(&self) -> (graph: Arc<StructuralGraphSnapshot>)
        ensures
            *graph == self.graph_spec(),
    {
        Arc::clone(&self.graph)
    }
}

/// The location of `price` is the located one when every distance fits in an
/// `i64`, and unavailable otherwise.
pub open spec fn location_follows(
    location: MarketLocationSnapshot,
    graph: StructuralGraphSnapshot,
    price: Price,
    atr: i64,
) -> bool {
    if distances_fit(graph.nodes@, price as int) {
        exists|upper: int|
            first_not_below(graph.nodes@, price as int, upper) && location == locate_spec(
                graph.nodes@,
                price as int,
                atr as int,
                upper,
            )
    } else {
        location == unavailable_location()
    }
}

/// Whether every distance the location may compute fits in an `i64`.
fn fits(graph: &StructuralGraphSnapshot, price: Price) -> (fit: bool)
    ensures
        fit == distances_fit(graph.nodes@, price as int),
{
    let n = graph.nodes.len();
    let mut i: usize = 0;
    while i < n
        invariant
            n == graph.nodes@.len(),
            0 <= i <= n,
            forall|k: int|
                #![trigger graph.nodes@[k]]
                0 <= k < i ==> {
                    &&& -i64::MAX <= price - graph.nodes@[k].lower <= i64::MAX
                    &&& -i64::MAX <= graph.nodes@[k].upper - price <= i64::MAX
                },
        decreases n - i,
    {
        let to_lower: i128 = price as i128 - graph.nodes[i].lower as i128;
        let to_upper: i128 = graph.nodes[i].upper as i128 - price as i128;
        if to_lower < -(i64::MAX as i128) || to_lower > i64::MAX as i128 || to_upper < -(i64::MAX as i128)
            || to_upper > i64::MAX as i128 {
            proof {
                assert(!(-i64::MAX <= price - graph.nodes@[i as int].lower <= i64::MAX && -i64::MAX
                    <= graph.nodes@[i as int].upper - price <= i64::MAX));
            }
            return false;
        }
        i = i + 1;
    }
    true
}

/// Locates `price`, or reports the location unavailable when a distance
/// would not fit in an `i64`.
fn locate_checked(graph: &StructuralGraphSnapshot, price: Price, atr: i64) -> (location: MarketLocationSnapshot)
    ensures
        location_follows(location, *graph, price, atr),
{
    if fits(graph, price) {
        locate_market(graph, price, atr)
    } else {
        MarketLocationSnapshot::unavailable()
    }
}

/// The mutations an accepted bar emits replay onto a book holding the
/// engine's objects: they validate there, so a mirror book that applies them
/// reaches the engine's objects.
pub proof fn lemma_emitted_mutations_replay(engine: StructuralEngine, bar: CanonicalBar)
    requires
        engine.failure(bar) is None,
        engine.emitted(bar).len() > 0,
    ensures
        validate_batch(engine.objects_spec(), engine.emitted(bar)) is Ok,
{
}

/// Engines in the same state derive the same mutations and refusals from a
/// bar: replaying one stream twice is bit-stable.
pub proof fn lemma_engine_deterministic(first: StructuralEngine, second: StructuralEngine, bar: CanonicalBar)
    requires
        first.instrument_spec() == second.instrument_spec(),
        first.version_spec() == second.version_spec(),
        first.calendar_spec() == second.calendar_spec(),
        first.objects_spec() == second.objects_spec(),
        first.session_producer() == second.session_producer(),
        first.opening_producer() == second.opening_producer(),
        first.projection_producer() == second.projection_producer(),
    ensures
        first.emitted(bar) == second.emitted(bar),
        first.failure(bar) == second.failure(bar),
{
}

/// The objects a book holds after applying a stream of batches in order,
/// an empty batch changing nothing.
pub open spec fn replay_batches(
    objects: Seq<StructuralObject>,
    batches: Seq<Seq<StructuralMutation>>,
) -> Seq<StructuralObject>
    decreases batches.len(),
{
    if batches.len() == 0 {
        objects
    } else {
        let before = replay_batches(objects, batches.drop_last());
        if batches.last().len() > 0 {
            apply_batch_spec(before, batches.last())
        } else {
            before
        }
    }
}

/// How an accepted bar moves the engine's objects: by its emitted batch, or
/// not at all when it emits nothing (what `on_bar` ensures of an `Ok`).
pub open spec fn accepted_step(before: StructuralEngine, bar: CanonicalBar, after: StructuralEngine) -> bool {
    &&& before.failure(bar) is None
    &&& after.objects_spec() == if before.emitted(bar).len() > 0 {
        apply_batch_spec(before.objects_spec(), before.emitted(bar))
    } else {
        before.objects_spec()
    }
}

/// The batches a run of accepted bars emits, one per bar.
pub open spec fn emitted_stream(engines: Seq<StructuralEngine>, bars: Seq<CanonicalBar>) -> Seq<
    Seq<StructuralMutation>,
> {
    Seq::new(bars.len(), |k: int| engines[k].emitted(bars[k]))
}

/// The mutation stream rebuilds the terminal book: over a run of accepted
/// bars, every non-empty emitted batch validates against a mirror book that
/// has applied the batches before it, and the mirror ends holding exactly
/// the engine's objects. `engines[k]` is the engine before `bars[k]`.
pub proof fn lemma_mutation_stream_rebuilds_book(engines: Seq<StructuralEngine>, bars: Seq<CanonicalBar>)
    requires
        engines.len() == bars.len() + 1,
        forall|k: int| 0 <= k < bars.len() ==> accepted_step(#[trigger] engines[k], bars[k], engines[k + 1]),
    ensures
        forall|k: int|
            0 <= k < bars.len() && (#[trigger] emitted_stream(engines, bars)[k]).len() > 0 ==> validate_batch(
                replay_batches(engines[0].objects_spec(), emitted_stream(engines, bars).take(k)),
                emitted_stream(engines, bars)[k],
            ) is Ok,
        replay_batches(engines[0].objects_spec(), emitted_stream(engines, bars)) == engines[bars.len() as int].objects_spec(),
    decreases bars.len(),
{
    let batches = emitted_stream(engines, bars);
    if bars.len() > 0 {
        let n = bars.len() - 1;
        let shorter_engines = engines.take(n + 1);
        let shorter_bars = bars.take(n);
        assert forall|k: int| 0 <= k < shorter_bars.len() implies accepted_step(
            #[trigger] shorter_engines[k],
            shorter_bars[k],
            shorter_engines[k + 1],
        ) by {
            assert(accepted_step(engines[k], bars[k], engines[k + 1]));
        }
        lemma_mutation_stream_rebuilds_book(shorter_engines, shorter_bars);
        let shorter = emitted_stream(shorter_engines, shorter_bars);
        assert(shorter =~= batches.take(n));
        assert(batches.drop_last() =~= batches.take(n));
        assert(accepted_step(engines[n], bars[n], engines[n + 1]));
        assert forall|k: int|
            0 <= k < bars.len() && (#[trigger] batches[k]).len() > 0 implies validate_batch(
                replay_batches(engines[0].objects_spec(), batches.take(k)),
                batches[k],
            ) is Ok by {
            if k < n {
                assert(shorter[k] == batches[k]);
                assert(shorter.take(k) =~= batches.take(k));
            } else {
                assert(batches.take(k) =~= batches.take(n));
                lemma_emitted_mutations_replay(engines[n], bars[n]);
            }
        }
    }
}

} // verus!
