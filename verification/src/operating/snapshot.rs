//! Immutable snapshots the office publishes: availability, value metadata,
//! domain masks and chunked bar series.

use crate::data_plane::{
    CanonicalBar, DerivationVersion, JournalSequence, SourceId, StreamId, Timeframe,
};
use super::market::IndexMarketSnapshot;
use std::sync::Arc;
use vstd::prelude::*;

verus! {

/// Bars per sealed block of a bar series.
pub const BAR_SERIES_BLOCK_LEN: usize = 256;

/// Whether a value is present and how it may be trusted.
#[derive(Clone, Copy, Debug, PartialEq, Eq, Structural)]
pub enum Availability {
    Live,
    Delayed,
    Stale,
    Replaying,
    AwaitingFirstReceipt,
    NotConfigured,
    NotEntitled,
    Disconnected,
    Invalid,
    Deferred,
    Ready,
}

/// The availabilities that carry a value.
pub open spec fn has_value_spec(availability: Availability) -> bool {
    availability == Availability::Live || availability == Availability::Delayed || availability
        == Availability::Stale || availability == Availability::Replaying || availability
        == Availability::Ready
}

/// Stable code of an availability (0 for live up to 10 for ready).
pub open spec fn availability_code_spec(availability: Availability) -> u8 {
    match availability {
        Availability::Live => 0,
        Availability::Delayed => 1,
        Availability::Stale => 2,
        Availability::Replaying => 3,
        Availability::AwaitingFirstReceipt => 4,
        Availability::NotConfigured => 5,
        Availability::NotEntitled => 6,
        Availability::Disconnected => 7,
        Availability::Invalid => 8,
        Availability::Deferred => 9,
        Availability::Ready => 10,
    }
}

impl Availability {
    /// Whether a value is present: live, delayed, stale, replaying or ready.
    /// Missing, unconfigured, unentitled, disconnected, invalid and deferred
    /// values are never treated as values.
    pub fn has_value(self) -> (present: bool)
        ensures
            present == has_value_spec(self),
    {
        match self {
            Availability::Live | Availability::Delayed | Availability::Stale | Availability::Replaying
            | Availability::Ready => true,
            _ => false,
        }
    }

    /// Stable code of this availability.
    pub fn code(self) -> (code: u8)
        ensures
            code == availability_code_spec(self),
    {
        match self {
            Availability::Live => 0,
            Availability::Delayed => 1,
            Availability::Stale => 2,
            Availability::Replaying => 3,
            Availability::AwaitingFirstReceipt => 4,
            Availability::NotConfigured => 5,
            Availability::NotEntitled => 6,
            Availability::Disconnected => 7,
            Availability::Invalid => 8,
            Availability::Deferred => 9,
            Availability::Ready => 10,
        }
    }
}

/// How the office runs.
#[derive(Clone, Copy, Debug, PartialEq, Eq, Structural)]
pub enum OperatingMode {
    OfflineReplay,
    LiveData,
    Paper,
    Live,
}

/// Provenance and availability of one published value.
#[derive(Clone, Copy, Debug, PartialEq, Eq, Structural)]
pub struct ValueMeta {
    pub ts_event_ns: i64,
    pub ts_received_ns: i64,
    pub ts_effective_ns: i64,
    pub journal_sequence: JournalSequence,
    pub derivation_version: DerivationVersion,
    pub source: SourceId,
    pub stream: StreamId,
    pub availability: Availability,
}

impl ValueMeta {
    /// Metadata of a value that is not present.
    pub fn unavailable(availability: Availability) -> (meta: ValueMeta)
        ensures
            meta.ts_event_ns == 0,
            meta.ts_received_ns == 0,
            meta.ts_effective_ns == 0,
            meta.journal_sequence.0 == 0,
            meta.derivation_version.0 == 0,
            meta.source.0 == 0,
            meta.stream.0 == 0,
            meta.availability == availability,
    {
        ValueMeta {
            ts_event_ns: 0,
            ts_received_ns: 0,
            ts_effective_ns: 0,
            journal_sequence: JournalSequence(0),
            derivation_version: DerivationVersion(0),
            source: SourceId(0),
            stream: StreamId(0),
            availability,
        }
    }
}

/// Generation of the published office snapshot.
#[derive(Clone, Copy, Debug, PartialEq, Eq, Structural)]
pub struct OfficeGeneration(pub u64);

impl OfficeGeneration {
    /// The generation before any publication.
    pub fn initial() -> (generation: OfficeGeneration)
        ensures
            generation.0 == 0,
    {
        OfficeGeneration(0)
    }

    /// The following generation, saturating at the largest.
    pub fn next(self) -> (next: OfficeGeneration)
        ensures
            next.0 == if self.0 == u64::MAX {
                u64::MAX
            } else {
                (self.0 + 1) as u64
            },
    {
        OfficeGeneration(if self.0 == u64::MAX {
            u64::MAX
        } else {
            self.0 + 1
        })
    }
}

/// A set of office domains, one bit each: desk, macro, fund, systems, ledger,
/// venue.
#[derive(Clone, Copy, Debug, PartialEq, Eq, Structural)]
pub struct DomainMask(u8);

/// Bits of every domain.
pub open spec fn all_domain_bits() -> u8 {
    0x3F
}

impl DomainMask {
    /// The mask's bits.
    pub closed spec fn bits_spec(self) -> u8 {
        self.0
    }

    /// Whether every domain of `other` is in `self`.
    pub open spec fn contains_spec(self, other: DomainMask) -> bool {
        self.bits_spec() & other.bits_spec() == other.bits_spec()
    }

    /// No domain.
    pub fn none() -> (mask: DomainMask)
        ensures
            mask.bits_spec() == 0,
    {
        DomainMask(0)
    }

    /// The desk domain.
    pub fn desk() -> (mask: DomainMask)
        ensures
            mask.bits_spec() == 1,
    {
        DomainMask(1)
    }

    /// The macro domain.
    pub fn macros() -> (mask: DomainMask)
        ensures
            mask.bits_spec() == 2,
    {
        DomainMask(2)
    }

    /// The fund domain.
    pub fn fund() -> (mask: DomainMask)
        ensures
            mask.bits_spec() == 4,
    {
        DomainMask(4)
    }

    /// The systems domain.
    pub fn systems() -> (mask: DomainMask)
        ensures
            mask.bits_spec() == 8,
    {
        DomainMask(8)
    }

    /// The ledger domain.
    pub fn ledger() -> (mask: DomainMask)
        ensures
            mask.bits_spec() == 16,
    {
        DomainMask(16)
    }

    /// The venue domain.
    pub fn venue() -> (mask: DomainMask)
        ensures
            mask.bits_spec() == 32,
    {
        DomainMask(32)
    }

    /// Every domain.
    pub fn all() -> (mask: DomainMask)
        ensures
            mask.bits_spec() == all_domain_bits(),
    {
        DomainMask(0x3F)
    }

    /// The mask's bits.
    pub fn bits(self) -> (bits: u8)
        ensures
            bits == self.bits_spec(),
    {
        self.0
    }

    /// The mask of the known domains among `bits`; unknown bits are dropped.
    pub fn from_bits_truncate(bits: u8) -> (mask: DomainMask)
        ensures
            mask.bits_spec() == bits & all_domain_bits(),
    {
        DomainMask(bits & 0x3F)
    }

    /// Whether every domain of `other` is in `self`.
    pub fn contains(self, other: DomainMask) -> (contained: bool)
        ensures
            contained == self.contains_spec(other),
    {
        self.0 & other.0 == other.0
    }

    /// Whether the mask holds no domain.
    pub fn is_empty(self) -> (empty: bool)
        ensures
            empty == (self.bits_spec() == 0),
    {
        self.0 == 0
    }

    /// The domains of both masks.
    pub fn union(self, other: DomainMask) -> (mask: DomainMask)
        ensures
            mask.bits_spec() == self.bits_spec() | other.bits_spec(),
    {
        DomainMask(self.0 | other.0)
    }
}

/// A union holds both masks, and a mask holds the empty mask.
pub proof fn lemma_union_contains(a: DomainMask, b: DomainMask, none: DomainMask)
    requires
        none.bits_spec() == 0,
    ensures
        DomainMask::contains_spec(
            DomainMask::union_spec(a, b),
            a,
        ),
        DomainMask::contains_spec(DomainMask::union_spec(a, b), b),
        a.contains_spec(none),
{
    let (x, y) = (a.bits_spec(), b.bits_spec());
    assert((x | y) & x == x && (x | y) & y == y && x & 0 == 0) by (bit_vector);
    DomainMask::lemma_union_bits(a, b);
}

impl DomainMask {
    /// The mask holding the domains of both.
    pub closed spec fn union_spec(a: DomainMask, b: DomainMask) -> DomainMask {
        DomainMask(a.0 | b.0)
    }

    /// Bits of a union.
    pub proof fn lemma_union_bits(a: DomainMask, b: DomainMask)
        ensures
            DomainMask::union_spec(a, b).bits_spec() == a.bits_spec() | b.bits_spec(),
    {
    }

    /// A mask holding known domains only.
    pub open spec fn known_spec(self) -> bool {
        self.bits_spec() & all_domain_bits() == self.bits_spec()
    }
}

/// A mask is its bits: two masks with the same bits are the same mask.
pub proof fn lemma_bits_determine_mask(a: DomainMask, b: DomainMask)
    requires
        a.bits_spec() == b.bits_spec(),
    ensures
        a == b,
{
}

/// A union of masks of known domains holds known domains only.
pub proof fn lemma_union_known(a: DomainMask, b: DomainMask)
    requires
        a.known_spec(),
        b.known_spec(),
    ensures
        DomainMask::union_spec(a, b).known_spec(),
{
    let (x, y) = (a.bits_spec(), b.bits_spec());
    assert((x & 0x3F == x && y & 0x3F == y) ==> (x | y) & 0x3F == x | y) by (bit_vector);
    DomainMask::lemma_union_bits(a, b);
}

/// Truncating a mask's own bits gives the mask back when it holds known
/// domains only (every constant and every union of them), and truncating
/// twice is truncating once: `r` is what `from_bits_truncate` returns for
/// the bits of `m`.
pub proof fn lemma_truncate_round_trip(m: DomainMask, r: DomainMask)
    requires
        r.bits_spec() == m.bits_spec() & all_domain_bits(),
    ensures
        m.known_spec() ==> r == m,
        r.known_spec(),
{
    let x = m.bits_spec();
    assert((x & 0x3F) & 0x3F == x & 0x3F) by (bit_vector);
    if m.known_spec() {
        lemma_bits_determine_mask(r, m);
    }
}

/// The bars of a chunked series: sealed blocks of `BAR_SERIES_BLOCK_LEN` bars
/// followed by the tail, in order.
pub open spec fn chunked_bars(blocks: Seq<Seq<CanonicalBar>>, tail: Seq<CanonicalBar>) -> Seq<CanonicalBar> {
    let sealed = blocks.len() * BAR_SERIES_BLOCK_LEN;
    Seq::new(
        (sealed + tail.len()) as nat,
        |i: int|
            if i < sealed {
                blocks[i / BAR_SERIES_BLOCK_LEN as int][i % BAR_SERIES_BLOCK_LEN as int]
            } else {
                tail[i - sealed]
            },
    )
}

/// Views of the sealed blocks.
pub open spec fn block_views(blocks: Seq<Arc<Vec<CanonicalBar>>>) -> Seq<Seq<CanonicalBar>> {
    blocks.map_values(|block: Arc<Vec<CanonicalBar>>| block@)
}

/// Every sealed block is full.
pub open spec fn blocks_full(blocks: Seq<Seq<CanonicalBar>>) -> bool {
    forall|b: int| 0 <= b < blocks.len() ==> (#[trigger] blocks[b]).len() == BAR_SERIES_BLOCK_LEN
}

/// An immutable bar history; appends copy at most one block.
#[derive(Clone, Debug)]
pub struct BarSeriesSnapshot {
    pub timeframe: Timeframe,
    pub blocks: Vec<Arc<Vec<CanonicalBar>>>,
    pub tail: Vec<CanonicalBar>,
    pub len: usize,
    pub revision: u64,
}

impl BarSeriesSnapshot {
    /// The bars of the series, oldest first.
    pub open spec fn bars_spec(&self) -> Seq<CanonicalBar> {
        chunked_bars(block_views(self.blocks@), self.tail@)
    }

    /// Sealed blocks of exactly `BAR_SERIES_BLOCK_LEN` bars, a tail shorter
    /// than a block, and a length that counts every bar.
    pub open spec fn wf(&self) -> bool {
        &&& blocks_full(block_views(self.blocks@))
        &&& self.tail@.len() < BAR_SERIES_BLOCK_LEN
        &&& self.len == self.blocks@.len() * BAR_SERIES_BLOCK_LEN + self.tail@.len()
    }

    /// A series without bars.
    pub fn empty(timeframe: Timeframe) -> (series: BarSeriesSnapshot)
        ensures
            series.wf(),
            series.timeframe == timeframe,
            series.bars_spec().len() == 0,
            series.len == 0,
            series.revision == 0,
    {
        BarSeriesSnapshot { timeframe, blocks: Vec::new(), tail: Vec::new(), len: 0, revision: 0 }
    }

    /// The bar at `index`, if the series has one.
    pub fn get(&self, index: usize) -> (bar: Option<&CanonicalBar>)
        requires
            self.wf(),
        ensures
            bar == if index < self.bars_spec().len() {
                Some(&self.bars_spec()[index as int])
            } else {
                None
            },
    {
        if index >= self.len {
            return None;
        }
        let sealed_len = self.blocks.len() * BAR_SERIES_BLOCK_LEN;
        if index < sealed_len {
            let block = index / BAR_SERIES_BLOCK_LEN;
            let offset = index % BAR_SERIES_BLOCK_LEN;
            proof {
                assert(block_views(self.blocks@)[block as int] == self.blocks@[block as int]@);
                assert(block < self.blocks@.len()) by (nonlinear_arith)
                    requires
                        block == index / 256,
                        index < sealed_len,
                        sealed_len == self.blocks@.len() * 256,
                ;
            }
            return Some(&self.blocks[block][offset]);
        }
        Some(&self.tail[index - sealed_len])
    }

    /// The newest bar, if any.
    pub fn last(&self) -> (bar: Option<&CanonicalBar>)
        requires
            self.wf(),
        ensures
            bar == if self.bars_spec().len() > 0 {
                Some(&self.bars_spec()[self.bars_spec().len() - 1])
            } else {
                None
            },
    {
        if self.len == 0 {
            return None;
        }
        self.get(self.len - 1)
    }

    /// The bars of the series, oldest first.
    pub fn iter(&self) -> (bars: Vec<CanonicalBar>)
        requires
            self.wf(),
        ensures
            bars@ == self.bars_spec(),
    {
        let mut bars: Vec<CanonicalBar> = Vec::new();
        let mut index: usize = 0;
        while index < self.len
            invariant
                self.wf(),
                0 <= index <= self.len,
                bars@ == self.bars_spec().subrange(0, index as int),
            decreases self.len - index,
        {
            let bar = self.get(index).unwrap();
            bars.push(*bar);
            proof {
                assert(bars@ =~= self.bars_spec().subrange(0, index + 1));
            }
            index = index + 1;
        }
        bars
    }
}

/// The desk's instruments at one publication.
#[derive(Clone, Debug)]
pub struct DeskSnapshot {
    pub generation: u64,
    pub published_ns: i64,
    pub last_sequence: JournalSequence,
    pub availability: Availability,
    pub instruments: Vec<Arc<IndexMarketSnapshot>>,
}

impl DeskSnapshot {
    /// A desk with nothing received yet.
    pub fn awaiting_first_receipt() -> (desk: DeskSnapshot)
        ensures
            desk.generation == 0,
            desk.published_ns == 0,
            desk.last_sequence.0 == 0,
            desk.availability == Availability::AwaitingFirstReceipt,
            desk.instruments@.len() == 0,
    {
        DeskSnapshot {
            generation: 0,
            published_ns: 0,
            last_sequence: JournalSequence(0),
            availability: Availability::AwaitingFirstReceipt,
            instruments: Vec::new(),
        }
    }

    /// A desk whose market source cannot serve: nothing published, and the
    /// source's availability.
    pub fn unavailable(availability: Availability) -> (desk: DeskSnapshot)
        ensures
            desk.generation == 0,
            desk.published_ns == 0,
            desk.last_sequence.0 == 0,
            desk.availability == availability,
            desk.instruments@.len() == 0,
    {
        DeskSnapshot {
            generation: 0,
            published_ns: 0,
            last_sequence: JournalSequence(0),
            availability,
            instruments: Vec::new(),
        }
    }
}

/// A domain's availability summary.
#[derive(Clone, Copy, Debug, PartialEq, Eq, Structural)]
pub struct DomainSnapshot {
    pub generation: u64,
    pub as_of_ns: i64,
    pub last_sequence: JournalSequence,
    pub availability: Availability,
}

impl DomainSnapshot {
    /// A domain with no value yet.
    pub fn unavailable(availability: Availability) -> (snapshot: DomainSnapshot)
        ensures
            snapshot == (DomainSnapshot {
                generation: 0,
                as_of_ns: 0,
                last_sequence: JournalSequence(0),
                availability,
            }),
    {
        DomainSnapshot { generation: 0, as_of_ns: 0, last_sequence: JournalSequence(0), availability }
    }
}

/// Notice to a subscriber: the generation reached and the domains changed.
#[derive(Clone, Copy, Debug, PartialEq, Eq, Structural)]
pub struct SnapshotNotice {
    pub generation: OfficeGeneration,
    pub changed: DomainMask,
}

impl SnapshotNotice {
    /// The notice a subscriber takes from the domain bits that publications
    /// have accumulated since it last looked: the known domains among them at
    /// the latest generation, or no notice when no known domain changed.
    /// Publications coalesce by union (`DomainMask::union`), so no changed
    /// domain is lost between two looks.
    pub fn from_pending(pending: u8, generation: OfficeGeneration) -> (notice: Option<SnapshotNotice>)
        ensures
            notice is None <==> pending & all_domain_bits() == 0,
            notice matches Some(n) ==> n.generation == generation && n.changed.bits_spec() == pending
                & all_domain_bits(),
    {
        let changed = DomainMask::from_bits_truncate(pending);
        if changed.is_empty() {
            None
        } else {
            Some(SnapshotNotice { generation, changed })
        }
    }
}

} // verus!
