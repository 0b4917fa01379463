//! Range projection: fixed fractions of the high-low range of a rolling window
//! of bars.

use super::{
    IdSequence, LevelSeed, ProducerError, advance_spec, check_stream, level, level_spec,
    moved_level, next_id_spec, rotate_left, rotate_left_spec, stream_check, time_bits, to_bits,
    update_level,
};
use crate::data_plane::{
    CalendarId, CanonicalBar, DerivationVersion, InstrumentId, JournalSequence, Timeframe,
    timeframe_from_code_spec,
};
use crate::market_state::contracts::{
    LevelFamily, LevelKind, LevelRole, PriceSpace, ProducerId, StructuralLevel,
    StructuralMutation, StructuralObject,
};
use vstd::prelude::*;

verus! {

/// Window length and projection fractions, in parts per million of the range.
#[derive(Clone, Debug, PartialEq, Eq)]
pub struct RangeProjectionSpec {
    pub lookback_bars: usize,
    pub fractions_ppm: Vec<u32>,
}

/// A usable projection: a window of at least two bars and strictly increasing
/// fractions from zero to one million.
pub open spec fn projection_spec_valid(lookback_bars: usize, fractions: Seq<u32>) -> bool {
    &&& lookback_bars >= 2
    &&& fractions.len() >= 2
    &&& fractions[0] == 0
    &&& fractions[fractions.len() - 1] == 1_000_000
    &&& forall|i: int| 0 <= i < fractions.len() - 1 ==> #[trigger] fractions[i] < fractions[i + 1]
}

impl RangeProjectionSpec {
    /// Twenty M4 bars projected at 0, 21.3, 33.3, 50, 66.6, 75, 90 and 100
    /// percent.
    pub fn default_m4() -> (spec: RangeProjectionSpec)
        ensures
            spec.lookback_bars == 20,
            spec.fractions_ppm@ == seq![0u32, 213_000, 333_000, 500_000, 666_000, 750_000, 900_000, 1_000_000],
    {
        RangeProjectionSpec {
            lookback_bars: 20,
            fractions_ppm: vec![0, 213_000, 333_000, 500_000, 666_000, 750_000, 900_000, 1_000_000],
        }
    }

    /// Whether the specification is usable.
    fn validate(&self) -> (valid: bool)
        ensures
            valid == projection_spec_valid(self.lookback_bars, self.fractions_ppm@),
    {
        let n = self.fractions_ppm.len();
        if self.lookback_bars < 2 || n < 2 || self.fractions_ppm[0] != 0 || self.fractions_ppm[n
            - 1] != 1_000_000 {
            return false;
        }
        let mut i: usize = 0;
        while i + 1 < n
            invariant
                n == self.fractions_ppm@.len(),
                n >= 2,
                0 <= i < n,
                forall|k: int| 0 <= k < i ==> #[trigger] self.fractions_ppm@[k] < self.fractions_ppm@[k + 1],
            decreases n - i,
        {
            if self.fractions_ppm[i] >= self.fractions_ppm[i + 1] {
                return false;
            }
            i = i + 1;
        }
        true
    }
}

/// One bar of the rolling window.
#[derive(Clone, Copy, Debug, PartialEq, Eq, Structural)]
pub struct BarRange {
    pub open_ns: i64,
    pub high: i64,
    pub low: i64,
    pub first_sequence: u64,
}

/// Range-projection producer of one instrument.
pub struct RangeProjectionProducer {
    instrument: InstrumentId,
    price_space: PriceSpace,
    calendar_id: CalendarId,
    derivation_version: DerivationVersion,
    spec: RangeProjectionSpec,
    ids: IdSequence,
    window: Vec<BarRange>,
    levels: Vec<StructuralLevel>,
    last_bar_open_ns: Option<i64>,
}

/// Lowest low of the first `n` bars of a window.
pub open spec fn window_low(window: Seq<BarRange>, n: nat) -> int
    decreases n,
{
    if n <= 1 {
        window[0].low as int
    } else {
        let rest = window_low(window, (n - 1) as nat);
        if window[n - 1].low < rest {
            window[n - 1].low as int
        } else {
            rest
        }
    }
}

/// Highest high of the first `n` bars of a window.
pub open spec fn window_high(window: Seq<BarRange>, n: nat) -> int
    decreases n,
{
    if n <= 1 {
        window[0].high as int
    } else {
        let rest = window_high(window, (n - 1) as nat);
        if window[n - 1].high > rest {
            window[n - 1].high as int
        } else {
            rest
        }
    }
}

/// Price at `fraction_ppm` of the range `[low, low + width]`, rounded down.
pub open spec fn projected_price(low: int, width: int, fraction_ppm: u32) -> i64 {
    (low + width * fraction_ppm / 1_000_000) as i64
}

/// Role of the projection level at `ordinal` among `count`.
pub open spec fn projection_role(ordinal: int, count: int) -> LevelRole {
    if ordinal == 0 {
        LevelRole::LowerBoundary
    } else if ordinal + 1 == count {
        LevelRole::UpperBoundary
    } else if ordinal * 2 == count - 1 {
        LevelRole::Center
    } else {
        LevelRole::NeutralReference
    }
}

/// The identity allocator after `n` identities.
pub open spec fn advance_by(ids: IdSequence, n: nat) -> IdSequence
    decreases n,
{
    if n == 0 {
        ids
    } else {
        advance_spec(advance_by(ids, (n - 1) as nat))
    }
}

/// The first `n` projection levels created from a seed whose identity,
/// role, price and ordinal vary with the position.
pub open spec fn created_levels(
    seed: LevelSeed,
    ids: IdSequence,
    fractions: Seq<u32>,
    low: int,
    width: int,
    n: nat,
) -> Seq<StructuralLevel>
    decreases n,
{
    if n == 0 {
        Seq::empty()
    } else {
        let i = n - 1;
        created_levels(seed, ids, fractions, low, width, (n - 1) as nat).push(
            level_spec(
                LevelSeed {
                    id: next_id_spec(advance_by(ids, i as nat)),
                    role: projection_role(i, fractions.len() as int),
                    price: projected_price(low, width, fractions[i]),
                    ordinal: i as u16,
                    ..seed
                },
            ),
        )
    }
}

/// The first `n` levels moved to their new projections, with the updates
/// emitted for those whose price changed.
pub open spec fn reprojected(
    levels: Seq<StructuralLevel>,
    fractions: Seq<u32>,
    low: int,
    width: int,
    bar: CanonicalBar,
    n: nat,
) -> (Seq<StructuralLevel>, Seq<StructuralMutation>)
    decreases n,
{
    if n == 0 {
        (Seq::empty(), Seq::empty())
    } else {
        let (moved, emitted) = reprojected(levels, fractions, low, width, bar, (n - 1) as nat);
        let current = levels[n - 1];
        let price = projected_price(low, width, fractions[n - 1]);
        if current.price != price {
            let next = moved_level(current, price, bar);
            (moved.push(next), emitted.push(StructuralMutation::Updated(StructuralObject::Level(next))))
        } else {
            (moved.push(current), emitted)
        }
    }
}

/// Announcements of created levels.
pub open spec fn announced(levels: Seq<StructuralLevel>) -> Seq<StructuralMutation> {
    Seq::new(levels.len(), |i: int| StructuralMutation::Created(StructuralObject::Level(levels[i])))
}

/// Lowest low and highest high of the first `n` bars of a window.
proof fn lemma_window_bounds(window: Seq<BarRange>, n: nat)
    requires
        1 <= n <= window.len(),
        forall|i: int| 0 <= i < window.len() ==> (#[trigger] window[i]).low <= window[i].high,
    ensures
        window_low(window, n) <= window_high(window, n),
        i64::MIN <= window_low(window, n) <= i64::MAX,
        i64::MIN <= window_high(window, n) <= i64::MAX,
    decreases n,
{
    if n > 1 {
        lemma_window_bounds(window, (n - 1) as nat);
    }
}

/// A projected price lies in the range it projects.
proof fn lemma_projected_in_range(low: int, width: int, fraction: u32)
    requires
        width >= 0,
        fraction <= 1_000_000,
    ensures
        low <= low + width * fraction / 1_000_000 <= low + width,
{
    assert(0 <= width * fraction <= width * 1_000_000) by (nonlinear_arith)
        requires
            width >= 0,
            0 <= fraction <= 1_000_000,
    ;
    assert(width * fraction / 1_000_000 <= width) by (nonlinear_arith)
        requires
            0 <= width * fraction <= width * 1_000_000,
            width >= 0,
    ;
    assert(0 <= width * fraction / 1_000_000) by (nonlinear_arith)
        requires
            0 <= width * fraction,
    ;
}

/// Every fraction of a valid specification is at most one million.
proof fn lemma_fractions_bounded(fractions: Seq<u32>, i: int)
    requires
        fractions.len() >= 1,
        fractions[fractions.len() - 1] == 1_000_000,
        forall|k: int| 0 <= k < fractions.len() - 1 ==> #[trigger] fractions[k] < fractions[k + 1],
        0 <= i < fractions.len(),
    ensures
        fractions[i] <= 1_000_000,
    decreases fractions.len() - i,
{
    if i < fractions.len() - 1 {
        lemma_fractions_bounded(fractions, i + 1);
    }
}

impl RangeProjectionProducer {
    /// Instrument this producer serves.
    pub closed spec fn instrument_spec(&self) -> InstrumentId {
        self.instrument
    }

    /// The projection levels, empty until the window first holds two bars.
    pub closed spec fn levels_spec(&self) -> Seq<StructuralLevel> {
        self.levels@
    }

    /// Open time of the last accepted bar.
    pub closed spec fn last_open_spec(&self) -> Option<i64> {
        self.last_bar_open_ns
    }

    /// The producer's invariant.
    pub closed spec fn wf(&self) -> bool {
        &&& projection_spec_valid(self.spec.lookback_bars, self.spec.fractions_ppm@)
        &&& self.ids.producer == ProducerId(3)
        &&& self.ids.instrument == self.instrument
        &&& self.window@.len() <= self.spec.lookback_bars
        &&& forall|i: int| 0 <= i < self.window@.len() ==> (#[trigger] self.window@[i]).low <= self.window@[i].high
        &&& (self.levels@.len() == 0 || self.levels@.len() == self.spec.fractions_ppm@.len())
    }

    /// Why the producer refuses `bar`, if it does.
    pub open spec fn check(&self, bar: CanonicalBar) -> Option<ProducerError> {
        stream_check(bar, self.instrument_spec(), self.last_open_spec())
    }

    /// The window after `bar` enters it.
    pub closed spec fn next_window(&self, bar: CanonicalBar) -> Seq<BarRange> {
        let pushed = self.window@.push(
            BarRange { open_ns: bar.ts_open_ns, high: bar.high, low: bar.low, first_sequence: bar.first_sequence },
        );
        if pushed.len() > self.spec.lookback_bars {
            pushed.drop_first()
        } else {
            pushed
        }
    }

    /// The seed of the levels created from `window` by `bar`.
    pub closed spec fn creation_seed(&self, window: Seq<BarRange>, bar: CanonicalBar) -> LevelSeed {
        LevelSeed {
            id: next_id_spec(self.ids),
            instrument: self.instrument,
            price_space: self.price_space,
            kind: LevelKind::RangeProjection,
            family: LevelFamily::RangeProjection,
            role: LevelRole::NeutralReference,
            price: 0,
            now_ns: bar.ts_close_ns,
            producer: ProducerId(3),
            calendar_id: self.calendar_id,
            derivation_version: self.derivation_version,
            timeframe: timeframe_from_code_spec(bar.timeframe).unwrap(),
            epoch_ns: window[0].open_ns,
            exclusive_group: rotate_left_spec(time_bits(window[0].open_ns), 29) ^ (
            self.spec.lookback_bars as u64),
            ordinal: 0,
            first_sequence: JournalSequence(window[0].first_sequence),
            last_sequence: JournalSequence(bar.last_sequence),
        }
    }

    /// Whether an accepted `bar` creates the levels; only then does the
    /// producer read the bar's timeframe.
    pub closed spec fn creates(&self, bar: CanonicalBar) -> bool {
        self.next_window(bar).len() >= 2 && self.levels@.len() == 0
    }

    /// Levels after an accepted bar, and the mutations it emits.
    pub closed spec fn outcome(&self, bar: CanonicalBar) -> (Seq<StructuralLevel>, Seq<StructuralMutation>) {
        let window = self.next_window(bar);
        if window.len() < 2 {
            (self.levels@, Seq::empty())
        } else {
            let low = window_low(window, window.len());
            let width = window_high(window, window.len()) - low;
            let count = self.spec.fractions_ppm@.len();
            if self.levels@.len() == 0 {
                let created = created_levels(
                    self.creation_seed(window, bar),
                    self.ids,
                    self.spec.fractions_ppm@,
                    low,
                    width,
                    count,
                );
                (created, announced(created))
            } else {
                reprojected(self.levels@, self.spec.fractions_ppm@, low, width, bar, count)
            }
        }
    }

    /// The bars of the rolling window.
    pub closed spec fn window_spec(&self) -> Seq<BarRange> {
        self.window@
    }

    /// The projection fractions, in parts per million of the range.
    pub closed spec fn fractions_spec(&self) -> Seq<u32> {
        self.spec.fractions_ppm@
    }

    /// Number of projection fractions.
    pub closed spec fn fraction_count(&self) -> nat {
        self.spec.fractions_ppm@.len()
    }

    /// Identity allocator state.
    pub closed spec fn ids_spec(&self) -> IdSequence {
        self.ids
    }

    /// A producer for `instrument`; refuses an unusable specification.
    pub fn new(
        instrument: InstrumentId,
        price_space: PriceSpace,
        calendar_id: CalendarId,
        derivation_version: DerivationVersion,
        spec: RangeProjectionSpec,
    ) -> (result: Result<RangeProjectionProducer, ProducerError>)
        ensures
            match result {
                Ok(producer) => {
                    &&& projection_spec_valid(spec.lookback_bars, spec.fractions_ppm@)
                    &&& producer.wf()
                    &&& producer.instrument_spec() == instrument
                    &&& producer.levels_spec().len() == 0
                    &&& producer.last_open_spec() is None
                    &&& producer.ids_spec() == (IdSequence { producer: ProducerId(3), instrument, next: 1 })
                },
                Err(error) => !projection_spec_valid(spec.lookback_bars, spec.fractions_ppm@) && error
                    == ProducerError::InvalidRangeProjection,
            },
    {
        if !spec.validate() {
            return Err(ProducerError::InvalidRangeProjection);
        }
        Ok(
            RangeProjectionProducer {
                instrument,
                price_space,
                calendar_id,
                derivation_version,
                spec,
                ids: IdSequence::new(ProducerId(3), instrument),
                window: Vec::new(),
                levels: Vec::new(),
                last_bar_open_ns: None,
            },
        )
    }

    /// Feeds one bar. A refused bar changes nothing; an accepted bar appends
    /// the producer's mutations to `output`.
    pub fn on_bar(&mut self, bar: &CanonicalBar, output: &mut Vec<StructuralMutation>) -> (result: Result<
        (),
        ProducerError,
    >)
        requires
            old(self).wf(),
            old(self).check(*bar) is None && old(self).creates(*bar) ==> timeframe_from_code_spec(bar.timeframe) is Some,
        ensures
            final(self).wf(),
            match result {
                Err(error) => {
                    &&& old(self).check(*bar) == Some(error)
                    &&& *final(self) == *old(self)
                    &&& final(output)@ == old(output)@
                },
                Ok(()) => {
                    &&& old(self).check(*bar) is None
                    &&& final(self).last_open_spec() == Some(bar.ts_open_ns)
                    &&& final(self).instrument_spec() == old(self).instrument_spec()
                    &&& final(self).fraction_count() == old(self).fraction_count()
                    &&& final(self).window_spec() == old(self).next_window(*bar)
                    &&& final(self).levels_spec() == old(self).outcome(*bar).0
                    &&& final(self).ids_spec() == if old(self).creates(*bar) {
                        advance_by(old(self).ids_spec(), old(self).fraction_count())
                    } else {
                        old(self).ids_spec()
                    }
                    &&& final(output)@ == old(output)@ + old(self).outcome(*bar).1
                },
            },
    {
        check_stream(bar, self.instrument, self.last_bar_open_ns)?;
        let ghost start = *self;
        self.last_bar_open_ns = Some(bar.ts_open_ns);
        self.window.push(
            BarRange { open_ns: bar.ts_open_ns, high: bar.high, low: bar.low, first_sequence: bar.first_sequence },
        );
        if self.window.len() > self.spec.lookback_bars {
            self.window.remove(0);
        }
        proof {
            assert(self.window@ =~= start.next_window(*bar));
        }
        let n = self.window.len();
        if n < 2 {
            proof {
                assert(output@ =~= old(output)@ + Seq::<StructuralMutation>::empty());
            }
            return Ok(());
        }
        let mut low = self.window[0].low;
        let mut high = self.window[0].high;
        let mut i: usize = 1;
        while i < n
            invariant
                n == self.window@.len(),
                1 <= i <= n,
                low == window_low(self.window@, i as nat),
                high == window_high(self.window@, i as nat),
            decreases n - i,
        {
            if self.window[i].low < low {
                low = self.window[i].low;
            }
            if self.window[i].high > high {
                high = self.window[i].high;
            }
            i = i + 1;
        }
        proof {
            lemma_window_bounds(self.window@, n as nat);
        }
        let width: i128 = high as i128 - low as i128;
        if self.levels.len() == 0 {
            self.create_levels(bar, low, width, output);
        } else {
            self.reproject(bar, low, width, output);
        }
        Ok(())
    }

    /// Creates one level per fraction.
    fn create_levels(&mut self, bar: &CanonicalBar, low: i64, width: i128, output: &mut Vec<StructuralMutation>)
        requires
            old(self).wf(),
            old(self).levels@.len() == 0,
            old(self).window@.len() >= 2,
            width >= 0,
            low + width <= i64::MAX,
            timeframe_from_code_spec(bar.timeframe) is Some,
        ensures
            final(self).wf(),
            final(self).last_bar_open_ns == old(self).last_bar_open_ns,
            final(self).instrument == old(self).instrument,
            final(self).window == old(self).window,
            final(self).spec == old(self).spec,
            final(self).ids == advance_by(old(self).ids, old(self).spec.fractions_ppm@.len()),
            final(self).levels@ == created_levels(
                old(self).creation_seed(old(self).window@, *bar),
                old(self).ids,
                old(self).spec.fractions_ppm@,
                low as int,
                width as int,
                old(self).spec.fractions_ppm@.len(),
            ),
            final(output)@ == old(output)@ + announced(final(self).levels@),
    {
        let ghost start_output = output@;
        let ghost seed0 = self.creation_seed(self.window@, *bar);
        let ghost ids0 = self.ids;
        let first = self.window[0];
        let epoch_ns = first.open_ns;
        let group = rotate_left(to_bits(epoch_ns), 29) ^ (self.spec.lookback_bars as u64);
        let timeframe = Timeframe::from_code(bar.timeframe).unwrap();
        let count = self.spec.fractions_ppm.len();
        let mut ordinal: usize = 0;
        while ordinal < count
            invariant
                count == self.spec.fractions_ppm@.len(),
                projection_spec_valid(self.spec.lookback_bars, self.spec.fractions_ppm@),
                0 <= ordinal <= count,
                self.levels@.len() == ordinal,
                self.ids == advance_by(ids0, ordinal as nat),
                self.ids.producer == ProducerId(3),
                self.ids.instrument == self.instrument,
                self.spec == old(self).spec,
                self.window == old(self).window,
                self.instrument == old(self).instrument,
                self.price_space == old(self).price_space,
                self.calendar_id == old(self).calendar_id,
                self.derivation_version == old(self).derivation_version,
                self.last_bar_open_ns == old(self).last_bar_open_ns,
                first == self.window@[0],
                epoch_ns == first.open_ns,
                seed0 == old(self).creation_seed(old(self).window@, *bar),
                group == seed0.exclusive_group,
                timeframe == seed0.timeframe,
                ids0 == old(self).ids,
                width >= 0,
                low + width <= i64::MAX,
                self.levels@ == created_levels(seed0, ids0, self.spec.fractions_ppm@, low as int, width as int, ordinal as nat),
                output@ == start_output + announced(self.levels@),
            decreases count - ordinal,
        {
            let fraction = self.spec.fractions_ppm[ordinal];
            proof {
                lemma_fractions_bounded(self.spec.fractions_ppm@, ordinal as int);
                lemma_projected_in_range(low as int, width as int, fraction);
            }
            let price = (low as i128 + (width * (fraction as i128)) / 1_000_000i128) as i64;
            let role = if ordinal == 0 {
                LevelRole::LowerBoundary
            } else if ordinal + 1 == count {
                LevelRole::UpperBoundary
            } else if count - 1 - ordinal == ordinal {
                LevelRole::Center
            } else {
                LevelRole::NeutralReference
            };
            let item = level(
                LevelSeed {
                    id: self.ids.take(),
                    instrument: self.instrument,
                    price_space: self.price_space,
                    kind: LevelKind::RangeProjection,
                    family: LevelFamily::RangeProjection,
                    role,
                    price,
                    now_ns: bar.ts_close_ns,
                    producer: ProducerId(3),
                    calendar_id: self.calendar_id,
                    derivation_version: self.derivation_version,
                    timeframe,
                    epoch_ns,
                    exclusive_group: group,
                    ordinal: #[verifier::truncate] (ordinal as u16),
                    first_sequence: JournalSequence(first.first_sequence),
                    last_sequence: JournalSequence(bar.last_sequence),
                },
            );
            let ghost levels_before = self.levels@;
            output.push(StructuralMutation::Created(StructuralObject::Level(item)));
            self.levels.push(item);
            proof {
                assert(self.levels@ =~= levels_before.push(item));
                assert(announced(self.levels@) =~= announced(levels_before).push(
                    StructuralMutation::Created(StructuralObject::Level(item)),
                ));
            }
            ordinal = ordinal + 1;
        }
    }

    /// Moves each level to its new projection, announcing those that moved.
    fn reproject(&mut self, bar: &CanonicalBar, low: i64, width: i128, output: &mut Vec<StructuralMutation>)
        requires
            old(self).wf(),
            old(self).levels@.len() > 0,
            width >= 0,
            low + width <= i64::MAX,
        ensures
            final(self).wf(),
            final(self).last_bar_open_ns == old(self).last_bar_open_ns,
            final(self).instrument == old(self).instrument,
            final(self).window == old(self).window,
            final(self).spec == old(self).spec,
            final(self).ids == old(self).ids,
            final(self).levels@ == reprojected(
                old(self).levels@,
                old(self).spec.fractions_ppm@,
                low as int,
                width as int,
                *bar,
                old(self).spec.fractions_ppm@.len(),
            ).0,
            final(output)@ == old(output)@ + reprojected(
                old(self).levels@,
                old(self).spec.fractions_ppm@,
                low as int,
                width as int,
                *bar,
                old(self).spec.fractions_ppm@.len(),
            ).1,
    {
        let ghost levels0 = self.levels@;
        let ghost ids0 = self.ids;
        let ghost start_output = output@;
        let count = self.levels.len();
        let mut index: usize = 0;
        while index < count
            invariant
                count == self.spec.fractions_ppm@.len(),
                count == self.levels@.len(),
                count == levels0.len(),
                projection_spec_valid(self.spec.lookback_bars, self.spec.fractions_ppm@),
                self.spec == old(self).spec,
                self.ids == ids0,
                self.window == old(self).window,
                self.instrument == old(self).instrument,
                self.last_bar_open_ns == old(self).last_bar_open_ns,
                0 <= index <= count,
                width >= 0,
                low + width <= i64::MAX,
                self.levels@.subrange(0, index as int) == reprojected(
                    levels0,
                    self.spec.fractions_ppm@,
                    low as int,
                    width as int,
                    *bar,
                    index as nat,
                ).0,
                self.levels@.subrange(index as int, count as int) == levels0.subrange(index as int, count as int),
                output@ == start_output + reprojected(
                    levels0,
                    self.spec.fractions_ppm@,
                    low as int,
                    width as int,
                    *bar,
                    index as nat,
                ).1,
            decreases count - index,
        {
            let fraction = self.spec.fractions_ppm[index];
            proof {
                lemma_fractions_bounded(self.spec.fractions_ppm@, index as int);
                lemma_projected_in_range(low as int, width as int, fraction);
                assert(self.levels@[index as int] == levels0[index as int]) by {
                    assert(self.levels@.subrange(index as int, count as int)[0] == levels0.subrange(index as int, count as int)[0]);
                }
            }
            let price = (low as i128 + (width * (fraction as i128)) / 1_000_000i128) as i64;
            let mut current = self.levels[index];
            let ghost before = self.levels@;
            if current.price != price {
                update_level(&mut current, price, bar);
                output.push(StructuralMutation::Updated(StructuralObject::Level(current)));
                self.levels.set(index, current);
            }
            proof {
                let prefix = reprojected(levels0, self.spec.fractions_ppm@, low as int, width as int, *bar, (index + 1) as nat);
                assert(self.levels@.subrange(0, index + 1) =~= prefix.0) by {
                    assert(before.subrange(0, index as int) =~= self.levels@.subrange(0, index as int));
                }
                assert(self.levels@.subrange(index + 1, count as int) =~= levels0.subrange(index + 1, count as int)) by {
                    assert forall|k: int| 0 <= k < count - index - 1 implies #[trigger] self.levels@.subrange(index + 1, count as int)[k] == levels0.subrange(index + 1, count as int)[k] by {
                        assert(before.subrange(index as int, count as int)[k + 1] == levels0.subrange(index as int, count as int)[k + 1]);
                    }
                }
                assert(output@ =~= start_output + prefix.1);
            }
            index = index + 1;
        }
        proof {
            assert(self.levels@ =~= self.levels@.subrange(0, count as int));
        }
    }
}

/// The lowest low and highest high of the first `n` bars are a low and a
/// high of one of them, and no bar among them goes beyond.
proof fn lemma_window_extremes(window: Seq<BarRange>, n: nat)
    requires
        1 <= n <= window.len(),
    ensures
        forall|k: int| 0 <= k < n ==> window_low(window, n) <= (#[trigger] window[k]).low,
        forall|k: int| 0 <= k < n ==> window_high(window, n) >= (#[trigger] window[k]).high,
        exists|k: int| 0 <= k < n && window_low(window, n) == (#[trigger] window[k]).low,
        exists|k: int| 0 <= k < n && window_high(window, n) == (#[trigger] window[k]).high,
    decreases n,
{
    if n > 1 {
        lemma_window_extremes(window, (n - 1) as nat);
        let kl = choose|k: int| 0 <= k < n - 1 && window_low(window, (n - 1) as nat) == (#[trigger] window[k]).low;
        let kh = choose|k: int| 0 <= k < n - 1 && window_high(window, (n - 1) as nat) == (#[trigger] window[k]).high;
        if window[n - 1].low < window_low(window, (n - 1) as nat) {
            assert(window_low(window, n) == window[n - 1].low);
        } else {
            assert(window_low(window, n) == window[kl].low);
        }
        if window[n - 1].high > window_high(window, (n - 1) as nat) {
            assert(window_high(window, n) == window[n - 1].high);
        } else {
            assert(window_high(window, n) == window[kh].high);
        }
    } else {
        assert(window_low(window, n) == window[0].low);
        assert(window_high(window, n) == window[0].high);
    }
}

/// Each created level stands at its fraction of the range.
proof fn lemma_created_prices(
    seed: LevelSeed,
    ids: IdSequence,
    fractions: Seq<u32>,
    low: int,
    width: int,
    n: nat,
)
    ensures
        created_levels(seed, ids, fractions, low, width, n).len() == n,
        forall|i: int| 0 <= i < n ==> (#[trigger] created_levels(seed, ids, fractions, low, width, n)[i]).price
            == projected_price(low, width, fractions[i]),
    decreases n,
{
    if n > 0 {
        lemma_created_prices(seed, ids, fractions, low, width, (n - 1) as nat);
        let prev = created_levels(seed, ids, fractions, low, width, (n - 1) as nat);
        assert forall|i: int| 0 <= i < n implies (#[trigger] created_levels(seed, ids, fractions, low, width, n)[i]).price
            == projected_price(low, width, fractions[i]) by {
            if i < n - 1 {
                assert(created_levels(seed, ids, fractions, low, width, n)[i] == prev[i]);
            }
        }
    }
}

/// Each reprojected level stands at its fraction of the range.
proof fn lemma_reprojected_prices(
    levels: Seq<StructuralLevel>,
    fractions: Seq<u32>,
    low: int,
    width: int,
    bar: CanonicalBar,
    n: nat,
)
    ensures
        reprojected(levels, fractions, low, width, bar, n).0.len() == n,
        forall|i: int| 0 <= i < n ==> (#[trigger] reprojected(levels, fractions, low, width, bar, n).0[i]).price
            == projected_price(low, width, fractions[i]),
    decreases n,
{
    if n > 0 {
        lemma_reprojected_prices(levels, fractions, low, width, bar, (n - 1) as nat);
        let prev = reprojected(levels, fractions, low, width, bar, (n - 1) as nat).0;
        assert forall|i: int| 0 <= i < n implies (#[trigger] reprojected(levels, fractions, low, width, bar, n).0[i]).price
            == projected_price(low, width, fractions[i]) by {
            if i < n - 1 {
                assert(reprojected(levels, fractions, low, width, bar, n).0[i] == prev[i]);
            }
        }
    }
}

/// Once the rolling window holds two bars, an accepted bar leaves one
/// projection level per fraction spanning the window: the first level at the
/// lowest low and the last at the highest high of every bar in the window,
/// the accepted bar included, and each level at its fraction of that range,
/// rounded down. The window ends with the accepted bar.
pub proof fn lemma_projection_spans_window(producer: RangeProjectionProducer, bar: CanonicalBar)
    requires
        producer.wf(),
        producer.check(bar) is None,
        producer.next_window(bar).len() >= 2,
    ensures
        ({
            let window = producer.next_window(bar);
            let levels = producer.outcome(bar).0;
            let last = levels.len() - 1;
            &&& window[window.len() - 1].open_ns == bar.ts_open_ns
            &&& window[window.len() - 1].low == bar.low
            &&& window[window.len() - 1].high == bar.high
            &&& levels.len() == producer.fraction_count()
            &&& levels.len() >= 2
            &&& forall|k: int| 0 <= k < window.len() ==> levels[0].price <= (#[trigger] window[k]).low
            &&& exists|k: int| 0 <= k < window.len() && levels[0].price == (#[trigger] window[k]).low
            &&& forall|k: int| 0 <= k < window.len() ==> levels[last].price >= (#[trigger] window[k]).high
            &&& exists|k: int| 0 <= k < window.len() && levels[last].price == (#[trigger] window[k]).high
            &&& forall|i: int| 0 <= i < levels.len() ==> levels[0].price <= (#[trigger] levels[i]).price <= levels[last].price
            &&& forall|i: int| 0 <= i < levels.len() ==> (#[trigger] levels[i]).price == levels[0].price + (levels[last].price
                - levels[0].price) * producer.fractions_spec()[i] / 1_000_000
        }),
{
    let window = producer.next_window(bar);
    let n = window.len();
    let fractions = producer.spec.fractions_ppm@;
    let count = fractions.len();
    assert(window[n - 1].low <= window[n - 1].high);
    assert forall|k: int| 0 <= k < n implies (#[trigger] window[k]).low <= window[k].high by {
        let pushed = producer.window@.push(
            BarRange { open_ns: bar.ts_open_ns, high: bar.high, low: bar.low, first_sequence: bar.first_sequence },
        );
        if pushed.len() > producer.spec.lookback_bars {
            assert(window[k] == pushed[k + 1]);
        } else {
            assert(window[k] == pushed[k]);
        }
    }
    lemma_window_bounds(window, n);
    lemma_window_extremes(window, n);
    let low = window_low(window, n);
    let width = window_high(window, n) - low;
    let levels = producer.outcome(bar).0;
    if producer.levels@.len() == 0 {
        lemma_created_prices(producer.creation_seed(window, bar), producer.ids, fractions, low, width, count);
    } else {
        lemma_reprojected_prices(producer.levels@, fractions, low, width, bar, count);
    }
    assert(levels.len() == count);
    assert forall|i: int| 0 <= i < count implies levels[i].price == projected_price(low, width, fractions[i])
        && low <= (#[trigger] levels[i]).price <= low + width && levels[i].price == low + width * fractions[i] / 1_000_000 by {
        lemma_fractions_bounded(fractions, i);
        lemma_projected_in_range(low, width, fractions[i]);
        assert(levels[i].price == low + width * fractions[i] / 1_000_000);
    }
    assert(width * 0 / 1_000_000 == 0) by (nonlinear_arith);
    assert(width * 1_000_000 / 1_000_000 == width) by (nonlinear_arith);
    assert(levels[0].price == low);
    assert(levels[count - 1].price == low + width);
    assert(producer.fractions_spec() == fractions);
    assert forall|i: int| 0 <= i < levels.len() implies (#[trigger] levels[i]).price == levels[0].price + (levels[count
        - 1].price - levels[0].price) * producer.fractions_spec()[i] / 1_000_000 by {
        assert(levels[i].price == low + width * fractions[i] / 1_000_000);
        assert((levels[count - 1].price - levels[0].price) == width);
    }
}

} // verus!
