//! Desk market state: instruments, reference values, venue quotes and the
//! chunked bar timelines behind the charts.

use super::snapshot::{
    BAR_SERIES_BLOCK_LEN, BarSeriesSnapshot, ValueMeta, block_views, blocks_full, chunked_bars,
};
use crate::data_plane::{CanonicalBar, InstrumentId, JournalSequence, Timeframe};
use std::sync::Arc;
use vstd::prelude::*;

pub mod projector;

verus! {

/// Number of chart timeframes.
pub const TIMEFRAME_COUNT: usize = 4;

/// How a reference symbol relates to the governed index.
#[derive(Clone, Copy, Debug, PartialEq, Eq, Structural)]
pub enum ReferenceRole {
    ExactBenchmark,
    ContextProxy,
}

/// A governed index as the desk shows it.
#[derive(Clone, Debug)]
pub struct MarketInstrument {
    pub id: InstrumentId,
    pub display_name: String,
    pub reference_symbol: String,
    pub reference_role: ReferenceRole,
    /// Fixed-point multiplier used by canonical values, for example 10_000.
    pub price_scale: i64,
}

/// Why the market state refused an input.
#[derive(Clone, Debug, PartialEq, Eq)]
pub enum MarketProjectorError {
    EmptyInstrumentSet,
    TooManyInstruments(usize),
    MissingInstrumentIdentity,
    InvalidPriceScale(i64),
    InvalidReferenceSymbol(String),
    DuplicateInstrument(InstrumentId),
}

/// The byte a namespaced reference symbol separates its namespace with.
pub open spec fn namespace_separator() -> u8 {
    58u8
}

/// Position of the first `needle` in `haystack`, if any.
#[verifier::external_body]
fn find_byte(needle: u8, haystack: &[u8]) -> (found: Option<usize>)
    ensures
        match found {
            Some(index) => index < haystack@.len() && haystack@[index as int] == needle && forall|j: int|
                0 <= j < index ==> haystack@[j] != needle,
            None => forall|j: int| 0 <= j < haystack@.len() ==> haystack@[j] != needle,
        },
{
    memchr::memchr(needle, haystack)
}

/// Why an instrument description is refused, if it is.
pub open spec fn instrument_error(
    id: InstrumentId,
    display_name: Seq<char>,
    reference_symbol: Seq<u8>,
    price_scale: i64,
) -> Option<u8> {
    if id.0 == 0 || display_name.len() == 0 {
        Some(1)
    } else if price_scale <= 0 {
        Some(2)
    } else if !reference_symbol.contains(namespace_separator()) {
        Some(3)
    } else {
        None
    }
}

/// `error` is what an instrument description is refused with: a missing
/// identity or name, then a non-positive scale, then a symbol without a
/// namespace, which the error carries.
pub open spec fn refused_as(
    error: MarketProjectorError,
    id: InstrumentId,
    display_name: Seq<char>,
    reference_symbol: Seq<char>,
    price_scale: i64,
) -> bool {
    match instrument_error(id, display_name, vstd::utf8::encode_utf8(reference_symbol), price_scale) {
        Some(code) => if code == 1 {
            error == MarketProjectorError::MissingInstrumentIdentity
        } else if code == 2 {
            error == MarketProjectorError::InvalidPriceScale(price_scale)
        } else {
            error matches MarketProjectorError::InvalidReferenceSymbol(symbol) && symbol@ == reference_symbol
        },
        None => false,
    }
}

impl MarketInstrument {
    /// An exact-benchmark instrument; see `new_with_role`.
    pub fn new(id: InstrumentId, display_name: String, reference_symbol: String, price_scale: i64) -> (result:
        Result<MarketInstrument, MarketProjectorError>)
        ensures
            match result {
                Ok(instrument) => {
                    &&& instrument_error(id, display_name@, vstd::utf8::encode_utf8(reference_symbol@), price_scale) is None
                    &&& instrument.id == id
                    &&& instrument.display_name@ == display_name@
                    &&& instrument.reference_symbol@ == reference_symbol@
                    &&& instrument.reference_role == ReferenceRole::ExactBenchmark
                    &&& instrument.price_scale == price_scale
                },
                Err(error) => refused_as(error, id, display_name@, reference_symbol@, price_scale),
            },
    {
        Self::new_with_role(id, display_name, reference_symbol, price_scale, ReferenceRole::ExactBenchmark)
    }

    /// An instrument with a non-zero identity, a display name, a positive
    /// price scale and a namespaced reference symbol such as `I:NDX`.
    pub fn new_with_role(
        id: InstrumentId,
        display_name: String,
        reference_symbol: String,
        price_scale: i64,
        reference_role: ReferenceRole,
    ) -> (result: Result<MarketInstrument, MarketProjectorError>)
        ensures
            match result {
                Ok(instrument) => {
                    &&& instrument_error(id, display_name@, vstd::utf8::encode_utf8(reference_symbol@), price_scale) is None
                    &&& instrument.id == id
                    &&& instrument.display_name@ == display_name@
                    &&& instrument.reference_symbol@ == reference_symbol@
                    &&& instrument.reference_role == reference_role
                    &&& instrument.price_scale == price_scale
                },
                Err(error) => refused_as(error, id, display_name@, reference_symbol@, price_scale),
            },
    {
        if id.get() == 0 || display_name.as_str().is_empty() {
            return Err(MarketProjectorError::MissingInstrumentIdentity);
        }
        if price_scale <= 0 {
            return Err(MarketProjectorError::InvalidPriceScale(price_scale));
        }
        let found = find_byte(58u8, reference_symbol.as_str().as_bytes());
        if found.is_none() {
            proof {
                assert(!vstd::utf8::encode_utf8(reference_symbol@).contains(namespace_separator()));
            }
            return Err(MarketProjectorError::InvalidReferenceSymbol(reference_symbol));
        }
        proof {
            let index = found.unwrap();
            assert(vstd::utf8::encode_utf8(reference_symbol@)[index as int] == namespace_separator());
        }
        Ok(MarketInstrument { id, display_name, reference_symbol, reference_role, price_scale })
    }
}

/// The reference index value of an instrument.
#[derive(Clone, Copy, Debug, PartialEq, Eq, Structural)]
pub struct ReferenceValueSnapshot {
    pub value_scaled: i64,
    pub price_scale: i64,
    pub meta: ValueMeta,
}

/// The executable venue quote of an instrument.
#[derive(Clone, Copy, Debug, PartialEq, Eq, Structural)]
pub struct VenueQuoteSnapshot {
    pub bid_scaled: i64,
    pub ask_scaled: i64,
    pub midpoint_scaled: i64,
    pub price_scale: i64,
    pub meta: ValueMeta,
}

/// Slot of a timeframe in the per-instrument series (0 for M4 up to 3 for H4).
pub open spec fn timeframe_slot_spec(timeframe: Timeframe) -> int {
    match timeframe {
        Timeframe::M4 => 0,
        Timeframe::M20 => 1,
        Timeframe::H2 => 2,
        Timeframe::H4 => 3,
    }
}

/// Slot of a timeframe in the per-instrument series.
pub fn timeframe_slot(timeframe: Timeframe) -> (slot: usize)
    ensures
        slot == timeframe_slot_spec(timeframe),
        slot < TIMEFRAME_COUNT,
{
    match timeframe {
        Timeframe::M4 => 0,
        Timeframe::M20 => 1,
        Timeframe::H2 => 2,
        Timeframe::H4 => 3,
    }
}

/// One instrument's desk state.
#[derive(Clone, Debug)]
pub struct IndexMarketSnapshot {
    pub instrument: Arc<MarketInstrument>,
    pub reference: ReferenceValueSnapshot,
    pub venue: VenueQuoteSnapshot,
    pub series: [Arc<BarSeriesSnapshot>; 4],
}

impl IndexMarketSnapshot {
    /// The bar series of `timeframe`.
    pub fn series(&self, timeframe: Timeframe) -> (series: &BarSeriesSnapshot)
        ensures
            *series == *self.series@[timeframe_slot_spec(timeframe)],
    {
        let slot = timeframe_slot(timeframe);
        &self.series[slot]
    }
}

/// Counters of the market projection.
#[derive(Clone, Copy, Debug, PartialEq, Eq, Structural)]
pub struct MarketProjectorHealth {
    pub batches: u64,
    pub events_seen: u64,
    pub reference_values: u64,
    pub venue_quotes: u64,
    pub external_bars: u64,
    pub ignored_events: u64,
    pub unknown_instruments: u64,
    pub invalid_events: u64,
    pub bar_rejections: u64,
    pub last_sequence: JournalSequence,
}

/// Bars in strictly increasing open order.
pub open spec fn opens_increasing(bars: Seq<CanonicalBar>) -> bool {
    forall|i: int, j: int| 0 <= i < j < bars.len() ==> #[trigger] bars[i].ts_open_ns < #[trigger] bars[j].ts_open_ns
}

/// Index of the first bar at or after `i` opening at or after `open_ns`.
pub open spec fn position_from(bars: Seq<CanonicalBar>, open_ns: i64, i: int) -> int
    decreases bars.len() - i,
{
    if i >= bars.len() {
        bars.len() as int
    } else if bars[i].ts_open_ns >= open_ns {
        i
    } else {
        position_from(bars, open_ns, i + 1)
    }
}

/// Where a bar opening at `open_ns` belongs in an ordered series.
pub open spec fn insertion_point(bars: Seq<CanonicalBar>, open_ns: i64) -> int {
    position_from(bars, open_ns, 0)
}

/// A series after `bar` is upserted, and whether it changed: a bar with the
/// same open replaces the stored one unless they are identical, and a new
/// open is inserted in order.
pub open spec fn upserted(bars: Seq<CanonicalBar>, bar: CanonicalBar) -> (Seq<CanonicalBar>, bool) {
    let p = insertion_point(bars, bar.ts_open_ns);
    if p < bars.len() && bars[p].ts_open_ns == bar.ts_open_ns {
        if bars[p] == bar {
            (bars, false)
        } else {
            (bars.update(p, bar), true)
        }
    } else {
        (bars.insert(p, bar), true)
    }
}

/// The first bar from `i` on that does not open before `open_ns` is at `k`.
pub(crate) proof fn lemma_position(bars: Seq<CanonicalBar>, open_ns: i64, i: int, k: int)
    requires
        0 <= i <= k <= bars.len(),
        forall|j: int| i <= j < k ==> #[trigger] bars[j].ts_open_ns < open_ns,
        k == bars.len() || bars[k].ts_open_ns >= open_ns,
    ensures
        position_from(bars, open_ns, i) == k,
    decreases k - i,
{
    if i < k {
        lemma_position(bars, open_ns, i + 1, k);
    }
}

/// The position found lies in the series and every bar before it opens
/// earlier.
pub(crate) proof fn lemma_position_bounds(bars: Seq<CanonicalBar>, open_ns: i64, i: int)
    requires
        0 <= i <= bars.len(),
    ensures
        i <= position_from(bars, open_ns, i) <= bars.len(),
        forall|j: int| i <= j < position_from(bars, open_ns, i) ==> #[trigger] bars[j].ts_open_ns < open_ns,
        position_from(bars, open_ns, i) < bars.len() ==> bars[position_from(bars, open_ns, i)].ts_open_ns
            >= open_ns,
    decreases bars.len() - i,
{
    if i < bars.len() && bars[i].ts_open_ns < open_ns {
        lemma_position_bounds(bars, open_ns, i + 1);
    }
}

/// An upsert keeps the series strictly ordered by open.
pub proof fn lemma_upsert_ordered(bars: Seq<CanonicalBar>, bar: CanonicalBar)
    requires
        opens_increasing(bars),
    ensures
        opens_increasing(upserted(bars, bar).0),
{
    lemma_position_bounds(bars, bar.ts_open_ns, 0);
    let p = insertion_point(bars, bar.ts_open_ns);
    let next = upserted(bars, bar).0;
    if !(p < bars.len() && bars[p].ts_open_ns == bar.ts_open_ns) {
        assert forall|i: int, j: int| 0 <= i < j < next.len() implies #[trigger] next[i].ts_open_ns
            < #[trigger] next[j].ts_open_ns by {
            if j < p {
                assert(next[i] == bars[i] && next[j] == bars[j]);
            } else if j == p {
                assert(next[i] == bars[i]);
            } else if i < p {
                assert(next[i] == bars[i] && next[j] == bars[j - 1]);
                if p < bars.len() {
                    assert(bars[p].ts_open_ns <= bars[j - 1].ts_open_ns);
                }
            } else if i == p {
                assert(next[j] == bars[j - 1]);
                assert(bars[p].ts_open_ns <= bars[j - 1].ts_open_ns);
            } else {
                assert(next[i] == bars[i - 1] && next[j] == bars[j - 1]);
            }
        }
    }
}

/// An upsert loses no bar: the upserted bar is held, and so is every bar
/// whose open differs from it, and only a bar with the same open is replaced.
pub proof fn lemma_upsert_lossless(bars: Seq<CanonicalBar>, bar: CanonicalBar)
    requires
        opens_increasing(bars),
    ensures
        upserted(bars, bar).0.contains(bar),
        forall|i: int|
            0 <= i < bars.len() && bars[i].ts_open_ns != bar.ts_open_ns ==> upserted(bars, bar).0.contains(
                #[trigger] bars[i],
            ),
        upserted(bars, bar).0.len() == if exists|i: int| 0 <= i < bars.len() && bars[i].ts_open_ns == bar.ts_open_ns {
            bars.len() as int
        } else {
            (bars.len() + 1) as int
        },
{
    lemma_position_bounds(bars, bar.ts_open_ns, 0);
    let p = insertion_point(bars, bar.ts_open_ns);
    let next = upserted(bars, bar).0;
    if p < bars.len() && bars[p].ts_open_ns == bar.ts_open_ns {
        if bars[p] == bar {
            assert(next[p] == bar);
        } else {
            assert(next[p] == bar);
        }
        assert forall|i: int| 0 <= i < bars.len() && bars[i].ts_open_ns != bar.ts_open_ns implies next.contains(
            #[trigger] bars[i],
        ) by {
            assert(i != p);
            assert(next[i] == bars[i]);
        }
    } else {
        assert(next[p] == bar);
        assert forall|i: int| 0 <= i < bars.len() && bars[i].ts_open_ns != bar.ts_open_ns implies next.contains(
            #[trigger] bars[i],
        ) by {
            if i < p {
                assert(next[i] == bars[i]);
            } else {
                assert(next[i + 1] == bars[i]);
            }
        }
        if exists|i: int| 0 <= i < bars.len() && bars[i].ts_open_ns == bar.ts_open_ns {
            let i = choose|i: int| 0 <= i < bars.len() && bars[i].ts_open_ns == bar.ts_open_ns;
            if i < p {
            } else if i > p {
                assert(bars[p].ts_open_ns < bars[i].ts_open_ns);
            }
        }
    }
}

/// Division of a position by the block length.
proof fn lemma_block_index(i: int, blocks: int)
    requires
        0 <= i,
        0 <= blocks,
    ensures
        i < blocks * 256 ==> i / 256 < blocks,
        blocks * 256 <= i < (blocks + 1) * 256 ==> i / 256 == blocks && i % 256 == i - blocks * 256,
{
    assert(i < blocks * 256 ==> i / 256 < blocks) by (nonlinear_arith)
        requires
            0 <= i,
            0 <= blocks,
    ;
    assert(blocks * 256 <= i < (blocks + 1) * 256 ==> i / 256 == blocks && i % 256 == i - blocks * 256) by (nonlinear_arith)
        requires
            0 <= i,
            0 <= blocks,
    ;
}

/// A series is its sealed blocks followed by its tail.
proof fn lemma_chunked_tail(blocks: Seq<Seq<CanonicalBar>>, tail: Seq<CanonicalBar>)
    ensures
        chunked_bars(blocks, tail) =~= chunked_bars(blocks, Seq::empty()) + tail,
{
}

/// Sealing one more full block appends its bars.
proof fn lemma_chunked_push(blocks: Seq<Seq<CanonicalBar>>, block: Seq<CanonicalBar>)
    requires
        block.len() == BAR_SERIES_BLOCK_LEN,
    ensures
        chunked_bars(blocks.push(block), Seq::empty()) =~= chunked_bars(blocks, Seq::empty()) + block,
{
    let next = chunked_bars(blocks.push(block), Seq::empty());
    let expected = chunked_bars(blocks, Seq::empty()) + block;
    assert(next.len() == expected.len()) by (nonlinear_arith)
        requires
            next.len() == (blocks.len() + 1) * 256,
            expected.len() == blocks.len() * 256 + 256,
    ;
    assert forall|i: int| 0 <= i < next.len() implies next[i] == expected[i] by {
        lemma_block_index(i, blocks.len() as int);
        assert(i < (blocks.len() + 1) * 256);
        if i < blocks.len() * 256 {
            assert(blocks.push(block)[i / 256] == blocks[i / 256]);
        } else {
            assert(blocks.push(block)[i / 256] == block);
        }
    }
}

/// A bar timeline of one timeframe: sealed blocks are shared by every
/// snapshot taken after them, so an append copies at most one block.
pub struct BarTimeline {
    timeframe: Timeframe,
    blocks: Vec<Arc<Vec<CanonicalBar>>>,
    tail: Vec<CanonicalBar>,
    len: usize,
    revision: u64,
    cached: Arc<BarSeriesSnapshot>,
}

impl BarTimeline {
    /// The bars of the timeline, oldest first.
    pub closed spec fn bars_spec(&self) -> Seq<CanonicalBar> {
        chunked_bars(block_views(self.blocks@), self.tail@)
    }

    /// Number of changes so far.
    pub closed spec fn revision_spec(&self) -> u64 {
        self.revision
    }

    /// Timeframe of the timeline.
    pub closed spec fn timeframe_spec(&self) -> Timeframe {
        self.timeframe
    }

    /// Full blocks, a short tail, a true length, ordered opens, and a cached
    /// snapshot of exactly these bars.
    pub closed spec fn wf(&self) -> bool {
        &&& blocks_full(block_views(self.blocks@))
        &&& self.tail@.len() < BAR_SERIES_BLOCK_LEN
        &&& self.len == self.blocks@.len() * BAR_SERIES_BLOCK_LEN + self.tail@.len()
        &&& opens_increasing(self.bars_spec())
        &&& self.cached.wf()
        &&& self.cached.bars_spec() == self.bars_spec()
        &&& self.cached.len == self.len
        &&& self.cached.revision == self.revision
        &&& self.cached.timeframe == self.timeframe
    }

    /// An empty timeline.
    pub fn new(timeframe: Timeframe) -> (timeline: BarTimeline)
        ensures
            timeline.wf(),
            opens_increasing(timeline.bars_spec()),
            timeline.bars_spec().len() == 0,
            timeline.revision_spec() == 0,
            timeline.timeframe_spec() == timeframe,
    {
        let timeline = BarTimeline {
            timeframe,
            blocks: Vec::new(),
            tail: Vec::new(),
            len: 0,
            revision: 0,
            cached: Arc::new(BarSeriesSnapshot::empty(timeframe)),
        };
        proof {
            assert(timeline.bars_spec() =~= timeline.cached.bars_spec());
        }
        timeline
    }

    /// A well-formed timeline holds its bars in strictly increasing open
    /// order, with at most one bar per open.
    pub proof fn lemma_opens_increasing(&self)
        requires
            self.wf(),
        ensures
            opens_increasing(self.bars_spec()),
    {
    }

    /// Number of bars held.
    pub fn len(&self) -> (len: usize)
        requires
            self.wf(),
        ensures
            len == self.bars_spec().len(),
    {
        self.len
    }

    /// The snapshot of the current bars.
    pub fn cached(&self) -> (snapshot: Arc<BarSeriesSnapshot>)
        requires
            self.wf(),
        ensures
            snapshot.wf(),
            snapshot.bars_spec() == self.bars_spec(),
            opens_increasing(snapshot.bars_spec()),
            snapshot.revision == self.revision_spec(),
            snapshot.timeframe == self.timeframe_spec(),
    {
        Arc::clone(&self.cached)
    }

    /// Inserts or replaces the bar opening at `bar.ts_open_ns`; returns
    /// whether the timeline changed. Appends and replacement of the newest
    /// bar stay on the hot path; an older bar rebuilds the blocks.
    pub fn upsert(&mut self, bar: CanonicalBar) -> (changed: bool)
        requires
            old(self).wf(),
            old(self).bars_spec().len() < usize::MAX,
        ensures
            final(self).wf(),
            final(self).timeframe_spec() == old(self).timeframe_spec(),
            opens_increasing(final(self).bars_spec()),
            (final(self).bars_spec(), changed) == upserted(old(self).bars_spec(), bar),
            final(self).revision_spec() == if changed {
                if old(self).revision_spec() == u64::MAX {
                    u64::MAX
                } else {
                    (old(self).revision_spec() + 1) as u64
                }
            } else {
                old(self).revision_spec()
            },
    {
        let ghost bars = self.bars_spec();
        let last_open: Option<i64> = if self.tail.len() > 0 {
            Some(self.tail[self.tail.len() - 1].ts_open_ns)
        } else if self.blocks.len() > 0 {
            let b = self.blocks.len() - 1;
            proof {
                assert(block_views(self.blocks@)[b as int] == self.blocks@[b as int]@);
            }
            Some(self.blocks[b][BAR_SERIES_BLOCK_LEN - 1].ts_open_ns)
        } else {
            None
        };
        proof {
            if bars.len() > 0 {
                let n = bars.len() - 1;
                lemma_block_index(n, self.blocks@.len() as int);
                if self.tail@.len() == 0 {
                    lemma_block_index(n, self.blocks@.len() - 1);
                    assert(n / 256 == self.blocks@.len() - 1);
                    assert(n % 256 == 255);
                    assert(block_views(self.blocks@)[n / 256] == self.blocks@[n / 256]@);
                }
                assert(last_open == Some(bars[n].ts_open_ns));
            } else {
                assert(last_open is None);
            }
        }
        match last_open {
            None => {
                proof {
                    lemma_position(bars, bar.ts_open_ns, 0, 0);
                }
                self.append(bar)
            },
            Some(last) => {
                if bar.ts_open_ns > last {
                    proof {
                        lemma_position(bars, bar.ts_open_ns, 0, bars.len() as int);
                    }
                    self.append(bar)
                } else if bar.ts_open_ns == last {
                    proof {
                        lemma_position(bars, bar.ts_open_ns, 0, bars.len() - 1);
                    }
                    self.replace_existing(bar)
                } else {
                    self.upsert_historical(bar)
                }
            },
        }
    }

    /// Appends a bar that opens after every stored bar.
    fn append(&mut self, bar: CanonicalBar) -> (changed: bool)
        requires
            old(self).wf(),
            old(self).bars_spec().len() < usize::MAX,
            insertion_point(old(self).bars_spec(), bar.ts_open_ns) == old(self).bars_spec().len(),
        ensures
            final(self).wf(),
            final(self).timeframe == old(self).timeframe,
            (final(self).bars_spec(), changed) == upserted(old(self).bars_spec(), bar),
            changed,
            final(self).revision == if old(self).revision == u64::MAX {
                u64::MAX
            } else {
                (old(self).revision + 1) as u64
            },
    {
        let ghost bars = self.bars_spec();
        proof {
            lemma_upsert_ordered(bars, bar);
            assert(bars.insert(bars.len() as int, bar) =~= bars.push(bar));
        }
        self.tail.push(bar);
        self.len = self.len + 1;
        proof {
            lemma_chunked_tail(block_views(self.blocks@), old(self).tail@);
            lemma_chunked_tail(block_views(self.blocks@), self.tail@);
            assert(self.bars_spec() =~= bars.push(bar));
        }
        if self.tail.len() == BAR_SERIES_BLOCK_LEN {
            let ghost views = block_views(self.blocks@);
            let mut sealed: Vec<CanonicalBar> = Vec::new();
            std::mem::swap(&mut sealed, &mut self.tail);
            let ghost sealed_view = sealed@;
            self.blocks.push(Arc::new(sealed));
            proof {
                assert(block_views(self.blocks@) =~= views.push(sealed_view));
                lemma_chunked_push(views, sealed_view);
                lemma_chunked_tail(views.push(sealed_view), self.tail@);
                lemma_chunked_tail(views, sealed_view);
                assert(self.bars_spec() =~= bars.push(bar));
                assert(self.len == self.blocks@.len() * 256 + self.tail@.len()) by (nonlinear_arith)
                    requires
                        self.len == (self.blocks@.len() - 1) * 256 + 256,
                        self.tail@.len() == 0,
                ;
            }
        }
        self.refresh();
        true
    }

    /// Replaces the newest bar when it opens at the same time.
    fn replace_existing(&mut self, bar: CanonicalBar) -> (changed: bool)
        requires
            old(self).wf(),
            old(self).bars_spec().len() > 0,
            old(self).bars_spec().len() < usize::MAX,
            insertion_point(old(self).bars_spec(), bar.ts_open_ns) == old(self).bars_spec().len() - 1,
            old(self).bars_spec()[old(self).bars_spec().len() - 1].ts_open_ns == bar.ts_open_ns,
        ensures
            final(self).wf(),
            final(self).timeframe == old(self).timeframe,
            (final(self).bars_spec(), changed) == upserted(old(self).bars_spec(), bar),
            final(self).revision == if changed {
                if old(self).revision == u64::MAX {
                    u64::MAX
                } else {
                    (old(self).revision + 1) as u64
                }
            } else {
                old(self).revision
            },
    {
        let ghost bars = self.bars_spec();
        let n = self.tail.len();
        if n > 0 {
            proof {
                lemma_chunked_tail(block_views(self.blocks@), self.tail@);
                assert(bars[bars.len() - 1] == self.tail@[n - 1]);
            }
            if self.tail[n - 1].ts_open_ns == bar.ts_open_ns {
                if self.tail[n - 1] == bar {
                    return false;
                }
                proof {
                    lemma_upsert_ordered(bars, bar);
                }
                self.tail.set(n - 1, bar);
                proof {
                    lemma_chunked_tail(block_views(self.blocks@), self.tail@);
                    assert(self.bars_spec() =~= bars.update(bars.len() - 1, bar));
                }
                self.refresh();
                return true;
            }
        }
        self.upsert_historical(bar)
    }

    /// Rebuilds the blocks around a bar at or before the newest open.
    fn upsert_historical(&mut self, bar: CanonicalBar) -> (changed: bool)
        requires
            old(self).wf(),
            old(self).bars_spec().len() < usize::MAX,
        ensures
            final(self).wf(),
            final(self).timeframe == old(self).timeframe,
            (final(self).bars_spec(), changed) == upserted(old(self).bars_spec(), bar),
            final(self).revision == if changed {
                if old(self).revision == u64::MAX {
                    u64::MAX
                } else {
                    (old(self).revision + 1) as u64
                }
            } else {
                old(self).revision
            },
    {
        let ghost bars = self.bars_spec();
        let mut values = self.cached.iter();
        proof {
            lemma_position_bounds(bars, bar.ts_open_ns, 0);
            lemma_upsert_ordered(bars, bar);
        }
        let count = values.len();
        let mut p: usize = 0;
        while p < count && values[p].ts_open_ns < bar.ts_open_ns
            invariant
                values@ == bars,
                count == bars.len(),
                0 <= p <= count,
                forall|j: int| 0 <= j < p ==> #[trigger] bars[j].ts_open_ns < bar.ts_open_ns,
            decreases count - p,
        {
            p = p + 1;
        }
        proof {
            lemma_position(bars, bar.ts_open_ns, 0, p as int);
        }
        if p < count && values[p].ts_open_ns == bar.ts_open_ns {
            if values[p] == bar {
                return false;
            }
            values.set(p, bar);
        } else {
            values.insert(p, bar);
        }
        let ghost target = upserted(bars, bar).0;
        proof {
            assert(values@ =~= target);
        }
        self.rechunk(values);
        self.refresh();
        true
    }

    /// Replaces the blocks and tail with the chunks of `values`.
    fn rechunk(&mut self, values: Vec<CanonicalBar>)
        requires
            opens_increasing(values@),
        ensures
            blocks_full(block_views(final(self).blocks@)),
            final(self).tail@.len() < BAR_SERIES_BLOCK_LEN,
            final(self).len == final(self).blocks@.len() * BAR_SERIES_BLOCK_LEN + final(self).tail@.len(),
            final(self).bars_spec() == values@,
            final(self).timeframe == old(self).timeframe,
            final(self).revision == old(self).revision,
            final(self).cached == old(self).cached,
    {
        let total = values.len();
        let full = total / BAR_SERIES_BLOCK_LEN;
        let mut blocks: Vec<Arc<Vec<CanonicalBar>>> = Vec::new();
        let mut b: usize = 0;
        proof {
            assert(full * 256 <= total) by (nonlinear_arith)
                requires
                    full == total / 256,
            ;
        }
        while b < full
            invariant
                total == values@.len(),
                full == total / 256,
                full * 256 <= total,
                0 <= b <= full,
                blocks@.len() == b,
                blocks_full(block_views(blocks@)),
                chunked_bars(block_views(blocks@), Seq::empty()) == values@.subrange(0, b * 256),
            decreases full - b,
        {
            let start = b * BAR_SERIES_BLOCK_LEN;
            let mut chunk: Vec<CanonicalBar> = Vec::new();
            let mut k: usize = 0;
            proof {
                assert(start + 256 <= full * 256) by (nonlinear_arith)
                    requires
                        start == b * 256,
                        b < full,
                ;
            }
            while k < BAR_SERIES_BLOCK_LEN
                invariant
                    total == values@.len(),
                    start + 256 <= total,
                    0 <= k <= 256,
                    chunk@ == values@.subrange(start as int, start + k),
                decreases 256 - k,
            {
                chunk.push(values[start + k]);
                proof {
                    assert(chunk@ =~= values@.subrange(start as int, start + k + 1));
                }
                k = k + 1;
            }
            let ghost views = block_views(blocks@);
            let ghost chunk_view = chunk@;
            blocks.push(Arc::new(chunk));
            proof {
                assert(block_views(blocks@) =~= views.push(chunk_view));
                lemma_chunked_push(views, chunk_view);
                assert(values@.subrange(0, (b + 1) * 256) =~= values@.subrange(0, b * 256) + values@.subrange(
                    b * 256,
                    b * 256 + 256,
                ));
                assert(blocks_full(block_views(blocks@))) by {
                    assert forall|q: int| 0 <= q < block_views(blocks@).len() implies (#[trigger] block_views(
                        blocks@,
                    )[q]).len() == 256 by {
                        if q < b {
                            assert(block_views(blocks@)[q] == views[q]);
                        }
                    }
                }
            }
            b = b + 1;
        }
        let sealed = full * BAR_SERIES_BLOCK_LEN;
        let mut tail: Vec<CanonicalBar> = Vec::new();
        let mut t: usize = sealed;
        while t < total
            invariant
                total == values@.len(),
                sealed <= t <= total,
                tail@ == values@.subrange(sealed as int, t as int),
            decreases total - t,
        {
            tail.push(values[t]);
            proof {
                assert(tail@ =~= values@.subrange(sealed as int, t + 1));
            }
            t = t + 1;
        }
        proof {
            lemma_chunked_tail(block_views(blocks@), tail@);
            assert(values@ =~= values@.subrange(0, sealed as int) + values@.subrange(sealed as int, total as int));
            assert(total - sealed < 256) by (nonlinear_arith)
                requires
                    full == total / 256,
                    sealed == full * 256,
            ;
        }
        self.blocks = blocks;
        self.tail = tail;
        self.len = total;
    }

    /// Publishes a new snapshot of the current bars.
    fn refresh(&mut self)
        requires
            blocks_full(block_views(old(self).blocks@)),
            old(self).tail@.len() < BAR_SERIES_BLOCK_LEN,
            old(self).len == old(self).blocks@.len() * BAR_SERIES_BLOCK_LEN + old(self).tail@.len(),
            opens_increasing(old(self).bars_spec()),
        ensures
            final(self).wf(),
            final(self).bars_spec() == old(self).bars_spec(),
            final(self).timeframe == old(self).timeframe,
            final(self).revision == if old(self).revision == u64::MAX {
                u64::MAX
            } else {
                (old(self).revision + 1) as u64
            },
    {
        self.revision = if self.revision == u64::MAX {
            u64::MAX
        } else {
            self.revision + 1
        };
        let blocks = clone_blocks(&self.blocks);
        let tail = clone_bars(&self.tail);
        self.cached = Arc::new(
            BarSeriesSnapshot { timeframe: self.timeframe, blocks, tail, len: self.len, revision: self.revision },
        );
        proof {
            assert(block_views(self.cached.blocks@) =~= block_views(self.blocks@));
            assert(self.cached.bars_spec() =~= self.bars_spec());
        }
    }
}

/// A copy of the block list sharing every block.
fn clone_blocks(blocks: &Vec<Arc<Vec<CanonicalBar>>>) -> (copy: Vec<Arc<Vec<CanonicalBar>>>)
    ensures
        copy@.len() == blocks@.len(),
        forall|i: int| 0 <= i < blocks@.len() ==> (#[trigger] copy@[i])@ == blocks@[i]@,
{
    let mut copy: Vec<Arc<Vec<CanonicalBar>>> = Vec::new();
    let n = blocks.len();
    let mut i: usize = 0;
    while i < n
        invariant
            n == blocks@.len(),
            0 <= i <= n,
            copy@.len() == i,
            forall|q: int| 0 <= q < i ==> (#[trigger] copy@[q])@ == blocks@[q]@,
        decreases n - i,
    {
        copy.push(Arc::clone(&blocks[i]));
        i = i + 1;
    }
    copy
}

/// A copy of a list of bars.
fn clone_bars(bars: &Vec<CanonicalBar>) -> (copy: Vec<CanonicalBar>)
    ensures
        copy@ == bars@,
{
    let mut copy: Vec<CanonicalBar> = Vec::new();
    let n = bars.len();
    let mut i: usize = 0;
    while i < n
        invariant
            n == bars@.len(),
            0 <= i <= n,
            copy@ == bars@.subrange(0, i as int),
        decreases n - i,
    {
        copy.push(bars[i]);
        proof {
            assert(copy@ =~= bars@.subrange(0, i + 1));
        }
        i = i + 1;
    }
    proof {
        assert(copy@ =~= bars@);
    }
    copy
}

} // verus!
