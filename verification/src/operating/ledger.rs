//! Projection of durable Ledger entries into the snapshot the Ledger page
//! reads: counters, one summary per trade case, the first case each
//! correlation joined, and a bounded newest-first window of rows.

use super::operator_ledger::{is_whitespace, is_whitespace_spec};
use super::snapshot::Availability;
use crate::data_plane::{InstrumentId, JournalSequence};
use crate::ledger::{
    ActorKind, CorrelationId, LedgerEntryId, LedgerEventKind, LedgerEventStatus, TradeCaseId, is_operator_spec,
};
use crate::market_state::id_table::{IdTable, WideIdTable, id_table_map, wide_table_map};
use crate::market_state::ordering::{SortKey, key_le, keyed_sorted, sort_keyed};
use crate::text::utf8_text;
use std::collections::VecDeque;
use vstd::prelude::*;
use vstd::string::*;

verus! {

/// Rows the snapshot keeps, newest first.
pub const LEDGER_VISIBLE_ROWS: usize = 256;

/// Characters of evidence a preview shows at most.
pub const PREVIEW_CHARS: usize = 180;

/// One visible Ledger row.
#[derive(Clone, Debug)]
pub struct LedgerRowSnapshot {
    pub entry_id: LedgerEntryId,
    pub case_id: TradeCaseId,
    pub parent_entry_id: LedgerEntryId,
    pub instrument_id: InstrumentId,
    pub ts_event_ns: i64,
    pub kind: LedgerEventKind,
    pub status: LedgerEventStatus,
    pub actor_kind: ActorKind,
    pub canonical_first_sequence: JournalSequence,
    pub canonical_last_sequence: JournalSequence,
    pub preview: String,
}

/// The latest state of one trade case.
#[derive(Clone, Debug)]
pub struct TradeCaseSummary {
    pub case_id: TradeCaseId,
    pub instrument_id: InstrumentId,
    pub last_entry_id: LedgerEntryId,
    pub last_event_ns: i64,
    pub entry_count: u32,
    pub last_kind: LedgerEventKind,
    pub preview: String,
}

/// What the Ledger page shows.
#[derive(Clone, Debug)]
pub struct LedgerSnapshot {
    pub generation: u64,
    pub published_ns: i64,
    pub last_sequence: JournalSequence,
    pub availability: Availability,
    pub entry_count: u64,
    pub case_count: u64,
    pub machine_count: u64,
    pub operator_count: u64,
    pub incident_count: u64,
    pub health: String,
    /// Most recently active first.
    pub cases: Vec<TradeCaseSummary>,
    /// Newest first, bounded independently from total durable history.
    pub rows: Vec<LedgerRowSnapshot>,
}

impl LedgerSnapshot {
    /// The Ledger before a store is attached.
    pub fn awaiting_store() -> (snapshot: LedgerSnapshot)
        ensures
            snapshot.generation == 0,
            snapshot.published_ns == 0,
            snapshot.last_sequence.0 == 0,
            snapshot.availability == Availability::AwaitingFirstReceipt,
            snapshot.entry_count == 0,
            snapshot.case_count == 0,
            snapshot.machine_count == 0,
            snapshot.operator_count == 0,
            snapshot.incident_count == 0,
            snapshot.health@ == "Ledger store is not attached"@,
            snapshot.cases@.len() == 0,
            snapshot.rows@.len() == 0,
    {
        LedgerSnapshot {
            generation: 0,
            published_ns: 0,
            last_sequence: JournalSequence(0),
            availability: Availability::AwaitingFirstReceipt,
            entry_count: 0,
            case_count: 0,
            machine_count: 0,
            operator_count: 0,
            incident_count: 0,
            health: "Ledger store is not attached".to_owned(),
            cases: Vec::new(),
            rows: Vec::new(),
        }
    }
}

/// The header of a durable Ledger entry, its coded fields decoded: a kind,
/// status or actor that did not decode is `None`.
#[derive(Clone, Copy, Debug)]
pub struct LedgerEntryHeader {
    pub entry_id: u64,
    pub case_id: u64,
    pub parent_entry_id: u64,
    pub correlation_id: u128,
    pub instrument_id: u32,
    pub ts_event_ns: i64,
    pub ts_recorded_ns: i64,
    pub kind: Option<LedgerEventKind>,
    pub status: Option<LedgerEventStatus>,
    pub actor_kind: Option<ActorKind>,
    pub canonical_first_sequence: u64,
    pub canonical_last_sequence: u64,
}

/// The store's answer to an append: whether it inserted a new entry, and
/// the entry's header.
#[derive(Clone, Copy, Debug)]
pub struct LedgerCommit {
    pub inserted: bool,
    pub header: LedgerEntryHeader,
}

// ---------------------------------------------------------------------------
// Previews.
// ---------------------------------------------------------------------------

/// White space as one space, and runs of spaces as one.
pub open spec fn collapsed(text: Seq<char>) -> Seq<char>
    decreases text.len(),
{
    if text.len() == 0 {
        Seq::empty()
    } else {
        let out = collapsed(text.drop_last());
        let c = if is_whitespace_spec(text.last()) {
            ' '
        } else {
            text.last()
        };
        if c == ' ' && out.len() > 0 && out.last() == ' ' {
            out
        } else {
            out.push(c)
        }
    }
}

/// Text without a leading and a trailing space.
pub open spec fn trimmed(text: Seq<char>) -> Seq<char> {
    let head = if text.len() > 0 && text[0] == ' ' {
        text.drop_first()
    } else {
        text
    };
    if head.len() > 0 && head.last() == ' ' {
        head.drop_last()
    } else {
        head
    }
}

/// The preview of an evidence body: its first characters with white space
/// collapsed and trimmed, or a marker for a body that is not UTF-8.
pub open spec fn preview_spec(body: Seq<u8>) -> Seq<char> {
    if vstd::utf8::valid_utf8(body) {
        let text = vstd::utf8::decode_utf8(body);
        let shown = if text.len() > PREVIEW_CHARS {
            text.subrange(0, PREVIEW_CHARS as int)
        } else {
            text
        };
        trimmed(collapsed(shown))
    } else {
        "<binary evidence>"@
    }
}

/// The preview of an evidence body.
pub fn body_preview(body: &[u8]) -> (preview: String)
    ensures
        preview@ == preview_spec(body@),
{
    let text = match utf8_text(body) {
        None => {
            return "<binary evidence>".to_owned();
        },
        Some(text) => text,
    };
    let total = text.as_str().unicode_len();
    let shown = if total > PREVIEW_CHARS {
        PREVIEW_CHARS
    } else {
        total
    };
    let ghost chars = text@.subrange(0, shown as int);
    let mut out = String::new();
    let mut prior_space = false;
    let mut i: usize = 0;
    while i < shown
        invariant
            shown <= text@.len(),
            chars == text@.subrange(0, shown as int),
            0 <= i <= shown,
            out@ == collapsed(chars.subrange(0, i as int)),
            prior_space == (out@.len() > 0 && out@.last() == ' '),
        decreases shown - i,
    {
        let c = text.as_str().get_char(i);
        proof {
            let prefix = chars.subrange(0, i + 1);
            assert(prefix.drop_last() =~= chars.subrange(0, i as int));
            assert(prefix.last() == c);
        }
        let ghost before_out = out@;
        if is_whitespace(c) {
            if !prior_space {
                out.append(" ");
                prior_space = true;
            }
        } else {
            out.append(text.as_str().substring_char(i, i + 1));
            prior_space = false;
        }
        proof {
            reveal_strlit(" ");
            assert(text@.subrange(i as int, i + 1) =~= seq![c]);
            assert(c == chars[i as int]);
            if is_whitespace_spec(c) {
                if before_out.len() > 0 && before_out.last() == ' ' {
                    assert(out@ == before_out);
                } else {
                    assert(out@ =~= before_out.push(' '));
                }
            } else {
                assert(out@ =~= before_out.push(c));
            }
            let prefix = chars.subrange(0, i + 1);
            assert(out@ =~= collapsed(prefix));
        }
        i = i + 1;
    }
    proof {
        assert(chars.subrange(0, shown as int) =~= chars);
        if total > PREVIEW_CHARS {
        } else {
            assert(chars =~= text@);
        }
    }
    let n = out.as_str().unicode_len();
    let start: usize = if n > 0 && out.as_str().get_char(0) == ' ' {
        1
    } else {
        0
    };
    let end: usize = if n > start && out.as_str().get_char(n - 1) == ' ' {
        n - 1
    } else {
        n
    };
    let result = out.as_str().substring_char(start, end).to_owned();
    proof {
        let text_c = collapsed(chars);
        let head = if text_c.len() > 0 && text_c[0] == ' ' {
            text_c.drop_first()
        } else {
            text_c
        };
        assert(head =~= text_c.subrange(start as int, n as int));
        if head.len() > 0 && head.last() == ' ' {
            assert(head.drop_last() =~= text_c.subrange(start as int, end as int));
        } else {
            assert(head =~= text_c.subrange(start as int, end as int));
        }
    }
    result
}

// ---------------------------------------------------------------------------
// The model of one entry.
// ---------------------------------------------------------------------------

/// `value + 1`, limited to `u64::MAX`.
pub open spec fn next_count(value: u64) -> u64 {
    if value == u64::MAX {
        u64::MAX
    } else {
        (value + 1) as u64
    }
}

/// `value + 1`, limited to `u32::MAX`.
pub open spec fn next_count_u32(value: u32) -> u32 {
    if value == u32::MAX {
        u32::MAX
    } else {
        (value + 1) as u32
    }
}

/// An entry the projector reads: its kind, status and actor decode.
pub open spec fn decodable(header: LedgerEntryHeader) -> bool {
    header.kind is Some && header.status is Some && header.actor_kind is Some
}

/// An incident: a data incident, or any entry reported as one.
pub open spec fn is_incident(header: LedgerEntryHeader) -> bool {
    header.kind == Some(LedgerEventKind::DataIncident) || header.status == Some(LedgerEventStatus::Incident)
}

/// Position of the case `case_id` among `cases`, if present.
pub open spec fn case_position(cases: Seq<TradeCaseSummary>, case_id: u64) -> Option<int> {
    if exists|i: int| 0 <= i < cases.len() && cases[i].case_id.0 == case_id {
        Some(choose|i: int| 0 <= i < cases.len() && cases[i].case_id.0 == case_id)
    } else {
        None
    }
}

/// A case summary after an entry of that case.
pub open spec fn case_advanced(after: TradeCaseSummary, before: TradeCaseSummary, header: LedgerEntryHeader, preview: Seq<char>) -> bool {
    &&& after.case_id == before.case_id
    &&& after.instrument_id == if header.instrument_id != 0 {
        InstrumentId(header.instrument_id)
    } else {
        before.instrument_id
    }
    &&& after.last_entry_id == LedgerEntryId(header.entry_id)
    &&& after.last_event_ns == header.ts_event_ns
    &&& after.entry_count == next_count_u32(before.entry_count)
    &&& Some(after.last_kind) == header.kind
    &&& after.preview@ == preview
}

/// The summary of a case an entry opens.
pub open spec fn case_opened(after: TradeCaseSummary, header: LedgerEntryHeader, preview: Seq<char>) -> bool {
    &&& after.case_id == TradeCaseId(header.case_id)
    &&& after.instrument_id == InstrumentId(header.instrument_id)
    &&& after.last_entry_id == LedgerEntryId(header.entry_id)
    &&& after.last_event_ns == header.ts_event_ns
    &&& after.entry_count == 1
    &&& Some(after.last_kind) == header.kind
    &&& after.preview@ == preview
}

/// The row of an entry.
pub open spec fn row_of(row: LedgerRowSnapshot, header: LedgerEntryHeader, preview: Seq<char>) -> bool {
    &&& row.entry_id == LedgerEntryId(header.entry_id)
    &&& row.case_id == TradeCaseId(header.case_id)
    &&& row.parent_entry_id == LedgerEntryId(header.parent_entry_id)
    &&& row.instrument_id == InstrumentId(header.instrument_id)
    &&& row.ts_event_ns == header.ts_event_ns
    &&& Some(row.kind) == header.kind
    &&& Some(row.status) == header.status
    &&& Some(row.actor_kind) == header.actor_kind
    &&& row.canonical_first_sequence == JournalSequence(header.canonical_first_sequence)
    &&& row.canonical_last_sequence == JournalSequence(header.canonical_last_sequence)
    &&& row.preview@ == preview
}

/// The cases after an entry: untouched by a case-free entry, else the
/// entry's case advances or opens at the end.
pub open spec fn cases_follow(
    after: Seq<TradeCaseSummary>,
    before: Seq<TradeCaseSummary>,
    header: LedgerEntryHeader,
    preview: Seq<char>,
) -> bool {
    if header.case_id == 0 {
        after == before
    } else {
        match case_position(before, header.case_id) {
            Some(p) => {
                &&& after.len() == before.len()
                &&& forall|i: int| 0 <= i < before.len() && i != p ==> after[i] == before[i]
                &&& case_advanced(after[p], before[p], header, preview)
            },
            None => {
                &&& after.len() == before.len() + 1
                &&& forall|i: int| 0 <= i < before.len() ==> after[i] == before[i]
                &&& case_opened(after[before.len() as int], header, preview)
            },
        }
    }
}

/// The rows after an entry: its row first, then the previous rows, at most
/// `LEDGER_VISIBLE_ROWS` of them.
pub open spec fn rows_follow(after: Seq<LedgerRowSnapshot>, before: Seq<LedgerRowSnapshot>, header: LedgerEntryHeader, preview: Seq<char>) -> bool {
    &&& after.len() == if before.len() + 1 > LEDGER_VISIBLE_ROWS {
        LEDGER_VISIBLE_ROWS as int
    } else {
        (before.len() + 1) as int
    }
    &&& row_of(after[0], header, preview)
    &&& forall|i: int| 1 <= i < after.len() ==> after[i] == before[i - 1]
}

/// Correlations after an entry: a case's correlation keeps the first case
/// that claimed it.
pub open spec fn correlations_after(correlations: Map<u128, u64>, header: LedgerEntryHeader) -> Map<u128, u64> {
    if header.case_id != 0 && header.correlation_id != 0 && !correlations.dom().contains(header.correlation_id) {
        correlations.insert(header.correlation_id, header.case_id)
    } else {
        correlations
    }
}

/// Cases with distinct identities, none of them zero.
pub open spec fn cases_distinct(cases: Seq<TradeCaseSummary>) -> bool {
    &&& forall|i: int| 0 <= i < cases.len() ==> (#[trigger] cases[i]).case_id.0 != 0
    &&& forall|i: int, j: int| 0 <= i < j < cases.len() ==> (#[trigger] cases[i]).case_id != (#[trigger] cases[j]).case_id
}

/// Snapshot order of cases: latest event first, then the larger identity.
pub open spec fn case_before(a: TradeCaseSummary, b: TradeCaseSummary) -> bool {
    a.last_event_ns > b.last_event_ns || (a.last_event_ns == b.last_event_ns && a.case_id.0 > b.case_id.0)
}

/// Sort key of a case in snapshot order.
pub open spec fn case_key(case: TradeCaseSummary) -> SortKey {
    SortKey { a: (-case.last_event_ns) as i128, b: (-case.case_id.0) as i128, c: 0, d: 0 }
}

/// A reordering of a sequence without repeats has no repeats.
proof fn lemma_sorted_distinct<T>(sorted: Seq<T>, unsorted: Seq<T>, a: int, b: int)
    requires
        sorted.to_multiset() == unsorted.to_multiset(),
        unsorted.no_duplicates(),
        0 <= a < b < sorted.len(),
    ensures
        sorted[a] != sorted[b],
{
    unsorted.lemma_multiset_has_no_duplicates();
    sorted.lemma_multiset_has_no_duplicates_conv();
}

// ---------------------------------------------------------------------------
// The projector.
// ---------------------------------------------------------------------------

/// Running projection of the durable Ledger.
pub struct LedgerProjector {
    generation: u64,
    published_ns: i64,
    last_sequence: JournalSequence,
    entry_count: u64,
    case_index: IdTable,
    correlation_cases: WideIdTable,
    cases: Vec<TradeCaseSummary>,
    machine_count: u64,
    operator_count: u64,
    incident_count: u64,
    rows: VecDeque<LedgerRowSnapshot>,
}

fn copy_case(case: &TradeCaseSummary) -> (copy: TradeCaseSummary)
    ensures
        copy == *case,
{
    TradeCaseSummary {
        case_id: case.case_id,
        instrument_id: case.instrument_id,
        last_entry_id: case.last_entry_id,
        last_event_ns: case.last_event_ns,
        entry_count: case.entry_count,
        last_kind: case.last_kind,
        preview: case.preview.clone(),
    }
}

fn copy_row(row: &LedgerRowSnapshot) -> (copy: LedgerRowSnapshot)
    ensures
        copy == *row,
{
    LedgerRowSnapshot {
        entry_id: row.entry_id,
        case_id: row.case_id,
        parent_entry_id: row.parent_entry_id,
        instrument_id: row.instrument_id,
        ts_event_ns: row.ts_event_ns,
        kind: row.kind,
        status: row.status,
        actor_kind: row.actor_kind,
        canonical_first_sequence: row.canonical_first_sequence,
        canonical_last_sequence: row.canonical_last_sequence,
        preview: row.preview.clone(),
    }
}

fn saturating_next(value: u64) -> (next: u64)
    ensures
        next == next_count(value),
{
    if value == u64::MAX {
        u64::MAX
    } else {
        value + 1
    }
}

impl LedgerProjector {
    pub closed spec fn generation_spec(&self) -> u64 {
        self.generation
    }

    pub closed spec fn published_spec(&self) -> i64 {
        self.published_ns
    }

    pub closed spec fn last_sequence_spec(&self) -> JournalSequence {
        self.last_sequence
    }

    pub closed spec fn entry_count_spec(&self) -> u64 {
        self.entry_count
    }

    pub closed spec fn machine_count_spec(&self) -> u64 {
        self.machine_count
    }

    pub closed spec fn operator_count_spec(&self) -> u64 {
        self.operator_count
    }

    pub closed spec fn incident_count_spec(&self) -> u64 {
        self.incident_count
    }

    /// Case summaries in the order their cases opened.
    pub closed spec fn cases_spec(&self) -> Seq<TradeCaseSummary> {
        self.cases@
    }

    /// The first case each correlation joined.
    pub closed spec fn correlations_spec(&self) -> Map<u128, u64> {
        wide_table_map(self.correlation_cases)
    }

    /// Visible rows, newest first.
    pub closed spec fn rows_spec(&self) -> Seq<LedgerRowSnapshot> {
        self.rows@
    }

    /// The index finds each case, the cases are distinct and the window is
    /// bounded.
    pub closed spec fn wf(&self) -> bool {
        &&& cases_distinct(self.cases@)
        &&& forall|i: int| 0 <= i < self.cases@.len() ==> id_table_map(self.case_index).dom().contains(
            (#[trigger] self.cases@[i]).case_id.0,
        ) && id_table_map(self.case_index)[self.cases@[i].case_id.0] == i
        &&& forall|k: u64| #[trigger] id_table_map(self.case_index).dom().contains(k) ==> id_table_map(self.case_index)[k]
            < self.cases@.len() && self.cases@[id_table_map(self.case_index)[k] as int].case_id.0 == k
        &&& self.rows@.len() <= LEDGER_VISIBLE_ROWS
    }

    /// A projector before any entry.
    pub fn empty() -> (projector: LedgerProjector)
        ensures
            projector.wf(),
            projector.generation_spec() == 1,
            projector.published_spec() == 0,
            projector.last_sequence_spec().0 == 0,
            projector.entry_count_spec() == 0,
            projector.machine_count_spec() == 0,
            projector.operator_count_spec() == 0,
            projector.incident_count_spec() == 0,
            projector.cases_spec().len() == 0,
            projector.correlations_spec() == Map::<u128, u64>::empty(),
            projector.rows_spec().len() == 0,
    {
        LedgerProjector {
            generation: 1,
            published_ns: 0,
            last_sequence: JournalSequence(0),
            entry_count: 0,
            case_index: IdTable::new(),
            correlation_cases: WideIdTable::new(),
            cases: Vec::new(),
            machine_count: 0,
            operator_count: 0,
            incident_count: 0,
            rows: VecDeque::new(),
        }
    }

    /// The case a correlation first joined, if any.
    pub fn case_for_correlation(&self, correlation: CorrelationId) -> (case: Option<TradeCaseId>)
        ensures
            case == (if self.correlations_spec().dom().contains(correlation.0) {
                Some(TradeCaseId(self.correlations_spec()[correlation.0]))
            } else {
                None
            }),
    {
        match self.correlation_cases.get(correlation.0) {
            Some(case) => Some(TradeCaseId(case)),
            None => None,
        }
    }

    /// Applies a commit: an entry the store did not insert changes nothing;
    /// an inserted one advances the generation and is applied.
    pub fn apply_commit(&mut self, commit: LedgerCommit, body: &[u8]) -> (applied: bool)
        requires
            old(self).wf(),
        ensures
            final(self).wf(),
            applied == commit.inserted,
            !applied ==> *final(self) == *old(self),
            applied ==> final(self).generation_spec() == next_count(old(self).generation_spec()),
            applied ==> final(self).entry_follows(*old(self), commit.header, body@),
    {
        if !commit.inserted {
            return false;
        }
        self.generation = saturating_next(self.generation);
        let ghost bumped = *self;
        self.apply_entry(&commit.header, body);
        proof {
            assert(bumped.cases_spec() == old(self).cases_spec());
        }
        true
    }

    /// What one entry does to everything but the generation.
    pub open spec fn entry_follows(&self, before: LedgerProjector, header: LedgerEntryHeader, body: Seq<u8>) -> bool {
        if !decodable(header) {
            &&& self.published_spec() == before.published_spec()
            &&& self.last_sequence_spec() == before.last_sequence_spec()
            &&& self.entry_count_spec() == before.entry_count_spec()
            &&& self.machine_count_spec() == before.machine_count_spec()
            &&& self.operator_count_spec() == before.operator_count_spec()
            &&& self.incident_count_spec() == before.incident_count_spec()
            &&& self.cases_spec() == before.cases_spec()
            &&& self.correlations_spec() == before.correlations_spec()
            &&& self.rows_spec() == before.rows_spec()
        } else {
            let operator = is_operator_spec(header.kind->0);
            &&& self.entry_count_spec() == next_count(before.entry_count_spec())
            &&& self.operator_count_spec() == if operator {
                next_count(before.operator_count_spec())
            } else {
                before.operator_count_spec()
            }
            &&& self.machine_count_spec() == if operator {
                before.machine_count_spec()
            } else {
                next_count(before.machine_count_spec())
            }
            &&& self.incident_count_spec() == if is_incident(header) {
                next_count(before.incident_count_spec())
            } else {
                before.incident_count_spec()
            }
            &&& self.published_spec() == if header.ts_recorded_ns > before.published_spec() {
                header.ts_recorded_ns
            } else {
                before.published_spec()
            }
            &&& self.last_sequence_spec() == if header.canonical_last_sequence > before.last_sequence_spec().0 {
                JournalSequence(header.canonical_last_sequence)
            } else {
                before.last_sequence_spec()
            }
            &&& self.correlations_spec() == correlations_after(before.correlations_spec(), header)
            &&& cases_follow(self.cases_spec(), before.cases_spec(), header, preview_spec(body))
            &&& rows_follow(self.rows_spec(), before.rows_spec(), header, preview_spec(body))
        }
    }

    /// Applies one durable entry: counters, its case, its correlation and
    /// its row. An entry whose kind, status or actor does not decode is
    /// skipped. Replaying a store applies its entries in order.
    #[verifier::rlimit(40)]
    pub fn apply_entry(&mut self, header: &LedgerEntryHeader, body: &[u8])
        requires
            old(self).wf(),
        ensures
            final(self).wf(),
            final(self).generation_spec() == old(self).generation_spec(),
            final(self).entry_follows(*old(self), *header, body@),
    {
        let ghost start = *self;
        let kind = match header.kind {
            Some(kind) => kind,
            None => {
                return;
            },
        };
        let status = match header.status {
            Some(status) => status,
            None => {
                return;
            },
        };
        let actor_kind = match header.actor_kind {
            Some(actor_kind) => actor_kind,
            None => {
                return;
            },
        };
        self.entry_count = saturating_next(self.entry_count);
        if kind.is_operator() {
            self.operator_count = saturating_next(self.operator_count);
        } else {
            self.machine_count = saturating_next(self.machine_count);
        }
        if kind == LedgerEventKind::DataIncident || status == LedgerEventStatus::Incident {
            self.incident_count = saturating_next(self.incident_count);
        }
        if header.ts_recorded_ns > self.published_ns {
            self.published_ns = header.ts_recorded_ns;
        }
        if header.canonical_last_sequence > self.last_sequence.0 {
            self.last_sequence = JournalSequence(header.canonical_last_sequence);
        }
        let preview = body_preview(body);
        if header.case_id != 0 {
            if header.correlation_id != 0 {
                if self.correlation_cases.get(header.correlation_id).is_none() {
                    self.correlation_cases.insert(header.correlation_id, header.case_id);
                }
            }
            self.record_case(header, kind, &preview);
        }
        self.record_row(header, kind, status, actor_kind, preview);
    }

    /// Advances or opens the entry's case.
    fn record_case(&mut self, header: &LedgerEntryHeader, kind: LedgerEventKind, preview: &String)
        requires
            old(self).wf(),
            header.case_id != 0,
            header.kind == Some(kind),
        ensures
            final(self).wf(),
            cases_follow(final(self).cases@, old(self).cases@, *header, preview@),
            final(self).generation == old(self).generation,
            final(self).published_ns == old(self).published_ns,
            final(self).last_sequence == old(self).last_sequence,
            final(self).entry_count == old(self).entry_count,
            final(self).machine_count == old(self).machine_count,
            final(self).operator_count == old(self).operator_count,
            final(self).incident_count == old(self).incident_count,
            final(self).correlation_cases == old(self).correlation_cases,
            final(self).rows == old(self).rows,
    {
        let ghost start = *self;
        let total = self.cases.len();
        match self.case_index.get(header.case_id) {
            Some(position) => {
                proof {
                    assert(id_table_map(self.case_index) == id_table_map(start.case_index));
                    assert(id_table_map(start.case_index).dom().contains(header.case_id));
                    assert(position < start.cases@.len());
                    assert(start.cases@[position as int].case_id.0 == header.case_id);
                    assert(self.cases@ == start.cases@);
                    assert(position < total);
                }
                let index = position as usize;
                proof {
                    assert(self.cases@[index as int].case_id.0 == header.case_id);
                    assert(case_position(self.cases@, header.case_id) == Some(index as int)) by {
                        let p = choose|i: int| 0 <= i < self.cases@.len() && self.cases@[i].case_id.0 == header.case_id;
                        if p != index {
                            if p < index {
                                assert(self.cases@[p].case_id != self.cases@[index as int].case_id);
                            } else {
                                assert(self.cases@[index as int].case_id != self.cases@[p].case_id);
                            }
                        }
                    }
                }
                let current = copy_case(&self.cases[index]);
                let count = if current.entry_count == u32::MAX {
                    u32::MAX
                } else {
                    current.entry_count + 1
                };
                let instrument_id = if header.instrument_id != 0 {
                    InstrumentId(header.instrument_id)
                } else {
                    current.instrument_id
                };
                let updated = TradeCaseSummary {
                    case_id: current.case_id,
                    instrument_id,
                    last_entry_id: LedgerEntryId(header.entry_id),
                    last_event_ns: header.ts_event_ns,
                    entry_count: count,
                    last_kind: kind,
                    preview: preview.clone(),
                };
                let ghost before_cases = self.cases@;
                self.cases.set(index, updated);
                proof {
                    assert forall|i: int, j: int| 0 <= i < j < self.cases@.len() implies (
                    #[trigger] self.cases@[i]).case_id != (#[trigger] self.cases@[j]).case_id by {
                        assert(before_cases[i].case_id != before_cases[j].case_id);
                    }
                }
            },
            None => {
                proof {
                    assert forall|i: int| 0 <= i < self.cases@.len() implies (#[trigger] self.cases@[i]).case_id.0
                        != header.case_id by {
                    }
                }
                let index = self.cases.len();
                let ghost before_cases = self.cases@;
                let ghost before_map = id_table_map(self.case_index);
                self.case_index.insert(header.case_id, index as u64);
                self.cases.push(
                    TradeCaseSummary {
                        case_id: TradeCaseId(header.case_id),
                        instrument_id: InstrumentId(header.instrument_id),
                        last_entry_id: LedgerEntryId(header.entry_id),
                        last_event_ns: header.ts_event_ns,
                        entry_count: 1,
                        last_kind: kind,
                        preview: preview.clone(),
                    },
                );
                proof {
                    assert forall|k: u64| #[trigger] id_table_map(self.case_index).dom().contains(k) implies id_table_map(
                        self.case_index,
                    )[k] < self.cases@.len() && self.cases@[id_table_map(self.case_index)[k] as int].case_id.0 == k by {
                        if k != header.case_id {
                            assert(before_map.dom().contains(k));
                            assert(self.cases@[before_map[k] as int] == before_cases[before_map[k] as int]);
                        }
                    }
                    assert forall|i: int| 0 <= i < self.cases@.len() implies id_table_map(self.case_index).dom().contains(
                        (#[trigger] self.cases@[i]).case_id.0,
                    ) && id_table_map(self.case_index)[self.cases@[i].case_id.0] == i by {
                        if i < before_cases.len() {
                            assert(self.cases@[i] == before_cases[i]);
                            assert(before_cases[i].case_id.0 != header.case_id);
                        }
                    }
                    assert(case_position(before_cases, header.case_id) is None);
                }
            },
        }
    }

    /// Puts the entry's row first and drops the oldest beyond the window.
    fn record_row(
        &mut self,
        header: &LedgerEntryHeader,
        kind: LedgerEventKind,
        status: LedgerEventStatus,
        actor_kind: ActorKind,
        preview: String,
    )
        requires
            old(self).rows@.len() <= LEDGER_VISIBLE_ROWS,
            header.kind == Some(kind),
            header.status == Some(status),
            header.actor_kind == Some(actor_kind),
        ensures
            final(self).rows@.len() <= LEDGER_VISIBLE_ROWS,
            rows_follow(final(self).rows@, old(self).rows@, *header, preview@),
            final(self).generation == old(self).generation,
            final(self).published_ns == old(self).published_ns,
            final(self).last_sequence == old(self).last_sequence,
            final(self).entry_count == old(self).entry_count,
            final(self).machine_count == old(self).machine_count,
            final(self).operator_count == old(self).operator_count,
            final(self).incident_count == old(self).incident_count,
            final(self).correlation_cases == old(self).correlation_cases,
            final(self).cases == old(self).cases,
            final(self).case_index == old(self).case_index,
    {
        let ghost before_rows = self.rows@;
        self.rows.push_front(
            LedgerRowSnapshot {
                entry_id: LedgerEntryId(header.entry_id),
                case_id: TradeCaseId(header.case_id),
                parent_entry_id: LedgerEntryId(header.parent_entry_id),
                instrument_id: InstrumentId(header.instrument_id),
                ts_event_ns: header.ts_event_ns,
                kind,
                status,
                actor_kind,
                canonical_first_sequence: JournalSequence(header.canonical_first_sequence),
                canonical_last_sequence: JournalSequence(header.canonical_last_sequence),
                preview,
            },
        );
        if self.rows.len() > LEDGER_VISIBLE_ROWS {
            self.rows.pop_back();
        }
        proof {
            assert forall|i: int| 1 <= i < self.rows@.len() implies self.rows@[i] == before_rows[i - 1] by {
            }
        }
    }

    /// The snapshot the Ledger page reads: counters, cases by most recent
    /// activity, rows newest first.
    pub fn snapshot(&self) -> (snapshot: LedgerSnapshot)
        requires
            self.wf(),
        ensures
            snapshot.generation == self.generation_spec(),
            snapshot.published_ns == self.published_spec(),
            snapshot.last_sequence == self.last_sequence_spec(),
            snapshot.availability == Availability::Ready,
            snapshot.entry_count == self.entry_count_spec(),
            snapshot.case_count == self.cases_spec().len(),
            snapshot.machine_count == self.machine_count_spec(),
            snapshot.operator_count == self.operator_count_spec(),
            snapshot.incident_count == self.incident_count_spec(),
            snapshot.health@ == "Durable hot journal and cold body pack ready"@,
            snapshot.cases@.len() == self.cases_spec().len(),
            forall|c: TradeCaseSummary| #[trigger] snapshot.cases@.contains(c) <==> self.cases_spec().contains(c),
            forall|i: int, j: int| 0 <= i < j < snapshot.cases@.len() ==> case_before(
                #[trigger] snapshot.cases@[i],
                #[trigger] snapshot.cases@[j],
            ),
            snapshot.rows@ == self.rows_spec(),
    {
        let mut keyed: Vec<(SortKey, TradeCaseSummary)> = Vec::new();
        let n = self.cases.len();
        let mut i: usize = 0;
        while i < n
            invariant
                n == self.cases@.len(),
                0 <= i <= n,
                keyed@.len() == i,
                forall|k: int| 0 <= k < i ==> (#[trigger] keyed@[k]) == (case_key(self.cases@[k]), self.cases@[k]),
            decreases n - i,
        {
            let case = copy_case(&self.cases[i]);
            let key = SortKey { a: -(case.last_event_ns as i128), b: -(case.case_id.0 as i128), c: 0, d: 0 };
            keyed.push((key, case));
            i = i + 1;
        }
        let ghost unsorted = keyed@;
        let sorted = sort_keyed(keyed);
        let mut cases: Vec<TradeCaseSummary> = Vec::new();
        let mut j: usize = 0;
        while j < sorted.len()
            invariant
                0 <= j <= sorted@.len(),
                cases@.len() == j,
                forall|k: int| 0 <= k < j ==> (#[trigger] cases@[k]) == sorted@[k].1,
            decreases sorted@.len() - j,
        {
            cases.push(copy_case(&sorted[j].1));
            j = j + 1;
        }
        let mut rows: Vec<LedgerRowSnapshot> = Vec::new();
        let mut r: usize = 0;
        while r < self.rows.len()
            invariant
                0 <= r <= self.rows@.len(),
                rows@.len() == r,
                forall|k: int| 0 <= k < r ==> (#[trigger] rows@[k]) == self.rows@[k],
            decreases self.rows@.len() - r,
        {
            rows.push(copy_row(&self.rows[r]));
            r = r + 1;
        }
        proof {
            assert(rows@ =~= self.rows@);
            // Every sorted pair carries the key of its case.
            assert forall|k: int| 0 <= k < sorted@.len() implies (#[trigger] sorted@[k]).0 == case_key(sorted@[k].1)
                && self.cases@.contains(sorted@[k].1) by {
                assert(sorted@.contains(sorted@[k]));
                assert(unsorted.contains(sorted@[k]));
                let q = choose|q: int| 0 <= q < unsorted.len() && unsorted[q] == sorted@[k];
                assert(unsorted[q] == (case_key(self.cases@[q]), self.cases@[q]));
            }
            assert forall|c: TradeCaseSummary| #[trigger] cases@.contains(c) <==> self.cases@.contains(c) by {
                if cases@.contains(c) {
                    let k = choose|k: int| 0 <= k < cases@.len() && cases@[k] == c;
                    assert(sorted@[k].1 == c);
                }
                if self.cases@.contains(c) {
                    let q = choose|q: int| 0 <= q < self.cases@.len() && self.cases@[q] == c;
                    assert(unsorted[q] == (case_key(c), c));
                    assert(unsorted.contains((case_key(c), c)));
                    assert(sorted@.contains((case_key(c), c)));
                    let k = choose|k: int| 0 <= k < sorted@.len() && sorted@[k] == (case_key(c), c);
                    assert(cases@[k] == c);
                }
            }
            assert forall|a: int, b: int| 0 <= a < b < cases@.len() implies case_before(
                #[trigger] cases@[a],
                #[trigger] cases@[b],
            ) by {
                assert(key_le(sorted@[a].0, sorted@[b].0));
                let x = sorted@[a].1;
                let y = sorted@[b].1;
                assert(self.cases@.contains(x) && self.cases@.contains(y));
                let qx = choose|q: int| 0 <= q < self.cases@.len() && self.cases@[q] == x;
                let qy = choose|q: int| 0 <= q < self.cases@.len() && self.cases@[q] == y;
                if x.case_id == y.case_id {
                    // Distinct cases never share an identity, so the two
                    // entries would be one case listed twice.
                    assert(qx == qy) by {
                        if qx < qy {
                            assert(self.cases@[qx].case_id != self.cases@[qy].case_id);
                        } else if qy < qx {
                            assert(self.cases@[qy].case_id != self.cases@[qx].case_id);
                        }
                    }
                    assert(unsorted.no_duplicates()) by {
                        assert forall|u: int, v: int| 0 <= u < unsorted.len() && 0 <= v < unsorted.len() && u != v implies unsorted[u]
                            != unsorted[v] by {
                            if u < v {
                                assert(self.cases@[u].case_id != self.cases@[v].case_id);
                            } else {
                                assert(self.cases@[v].case_id != self.cases@[u].case_id);
                            }
                        }
                    }
                    lemma_sorted_distinct(sorted@, unsorted, a, b);
                    assert(false);
                }
            }
        }
        LedgerSnapshot {
            generation: self.generation,
            published_ns: self.published_ns,
            last_sequence: self.last_sequence,
            availability: Availability::Ready,
            entry_count: self.entry_count,
            case_count: self.cases.len() as u64,
            machine_count: self.machine_count,
            operator_count: self.operator_count,
            incident_count: self.incident_count,
            health: "Durable hot journal and cold body pack ready".to_owned(),
            cases,
            rows,
        }
    }

    /// The snapshot published when a Ledger append failed: the projection
    /// as it stands, marked invalid, with the failure as its health text.
    pub fn failure_snapshot(&self, message: String) -> (snapshot: LedgerSnapshot)
        requires
            self.wf(),
        ensures
            snapshot.availability == Availability::Invalid,
            snapshot.health@ == message@,
            snapshot.generation == self.generation_spec(),
            snapshot.published_ns == self.published_spec(),
            snapshot.last_sequence == self.last_sequence_spec(),
            snapshot.entry_count == self.entry_count_spec(),
            snapshot.case_count == self.cases_spec().len(),
            snapshot.machine_count == self.machine_count_spec(),
            snapshot.operator_count == self.operator_count_spec(),
            snapshot.incident_count == self.incident_count_spec(),
            snapshot.cases@.len() == self.cases_spec().len(),
            forall|c: TradeCaseSummary| #[trigger] snapshot.cases@.contains(c) <==> self.cases_spec().contains(c),
            forall|i: int, j: int| 0 <= i < j < snapshot.cases@.len() ==> case_before(
                #[trigger] snapshot.cases@[i],
                #[trigger] snapshot.cases@[j],
            ),
            snapshot.rows@ == self.rows_spec(),
    {
        let mut snapshot = self.snapshot();
        snapshot.availability = Availability::Invalid;
        snapshot.health = message;
        snapshot
    }
}

/// A correlation keeps the first case that claimed it: no later entry moves
/// it to another case.
pub proof fn lemma_correlation_keeps_first_case(correlations: Map<u128, u64>, header: LedgerEntryHeader, correlation: u128)
    requires
        correlations.dom().contains(correlation),
    ensures
        correlations_after(correlations, header).dom().contains(correlation),
        correlations_after(correlations, header)[correlation] == correlations[correlation],
{
}

/// Collapsing white space never lengthens text.
proof fn lemma_collapsed_len(text: Seq<char>)
    ensures
        collapsed(text).len() <= text.len(),
    decreases text.len(),
{
    if text.len() > 0 {
        lemma_collapsed_len(text.drop_last());
    }
}

/// A preview never shows more than `PREVIEW_CHARS` characters.
pub proof fn lemma_preview_bounded(body: Seq<u8>)
    ensures
        preview_spec(body).len() <= PREVIEW_CHARS,
{
    reveal_strlit("<binary evidence>");
    if vstd::utf8::valid_utf8(body) {
        let text = vstd::utf8::decode_utf8(body);
        let shown = if text.len() > PREVIEW_CHARS {
            text.subrange(0, PREVIEW_CHARS as int)
        } else {
            text
        };
        lemma_collapsed_len(shown);
    }
}

} // verus!
