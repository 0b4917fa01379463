//! Compact Ledger receipts of committed canonical macro batches.

use crate::data_plane::{EventKind, JournalSequence, SourceId};
use vstd::prelude::*;

verus! {

/// Family of committed macro material.
#[derive(Clone, Copy, Debug, PartialEq, Eq, Structural)]
pub enum MacroMaterialKind {
    Observations,
    Positioning,
    Provenance,
}

/// Wording of a material family in Ledger bodies.
pub open spec fn ledger_label_spec(kind: MacroMaterialKind) -> Seq<char> {
    match kind {
        MacroMaterialKind::Observations => "official macro observations"@,
        MacroMaterialKind::Positioning => "official positioning observations"@,
        MacroMaterialKind::Provenance => "official release and document provenance"@,
    }
}

impl MacroMaterialKind {
    /// Wording of the family in Ledger bodies.
    pub fn ledger_label(self) -> (label: &'static str)
        ensures
            label@ == ledger_label_spec(self),
    {
        match self {
            MacroMaterialKind::Observations => "official macro observations",
            MacroMaterialKind::Positioning => "official positioning observations",
            MacroMaterialKind::Provenance => "official release and document provenance",
        }
    }
}

/// The parts of a committed canonical event a material receipt reads.
#[derive(Clone, Copy, Debug, PartialEq, Eq, Structural)]
pub struct MaterialEvent {
    pub source: SourceId,
    pub kind: EventKind,
    pub journal_sequence: JournalSequence,
    pub correction: bool,
    pub ts_received_ns: i64,
}

/// Compact description of one already-committed canonical macro batch: its
/// source, family, canonical range, newest receipt time and counts.
#[derive(Clone, Copy, Debug, PartialEq, Eq, Structural)]
pub struct MacroMaterialBatch {
    pub source: SourceId,
    pub kind: MacroMaterialKind,
    pub first_sequence: JournalSequence,
    pub last_sequence: JournalSequence,
    pub ts_received_ns: i64,
    pub event_count: u32,
    pub correction_count: u32,
}

/// Why a batch of events is no single material receipt.
#[derive(Clone, Copy, Debug, PartialEq, Eq, Structural)]
pub enum MacroMaterialError {
    Empty,
    MixedSource,
    MixedKind,
    UnsupportedKind(EventKind),
    MissingSequence,
    NonIncreasingSequence,
    TooLarge,
}

/// Material family of an event kind: observations, positioning, or release
/// and document provenance.
pub open spec fn material_kind_spec(kind: EventKind) -> Option<MacroMaterialKind> {
    match kind {
        EventKind::MacroObservation => Some(MacroMaterialKind::Observations),
        EventKind::PositioningObservation => Some(MacroMaterialKind::Positioning),
        EventKind::MacroRelease | EventKind::SourceDocument => Some(MacroMaterialKind::Provenance),
        _ => None,
    }
}

/// Position of the first batch of `kind`, if any.
pub open spec fn batch_of(batches: Seq<MacroMaterialBatch>, kind: MacroMaterialKind, n: nat) -> Option<int>
    decreases n,
{
    if n == 0 {
        None
    } else {
        match batch_of(batches, kind, (n - 1) as nat) {
            Some(i) => Some(i),
            None => if batches[n - 1].kind == kind {
                Some(n - 1)
            } else {
                None
            },
        }
    }
}

/// Saturating increment of a count.
pub open spec fn count_up(count: u32, by: u32) -> u32 {
    if count + by > u32::MAX {
        u32::MAX
    } else {
        (count + by) as u32
    }
}

/// A batch extended by one more event.
pub open spec fn extended_batch(batch: MacroMaterialBatch, event: MaterialEvent) -> MacroMaterialBatch {
    MacroMaterialBatch {
        last_sequence: event.journal_sequence,
        ts_received_ns: if event.ts_received_ns > batch.ts_received_ns {
            event.ts_received_ns
        } else {
            batch.ts_received_ns
        },
        event_count: count_up(batch.event_count, 1),
        correction_count: count_up(batch.correction_count, if event.correction {
            1
        } else {
            0
        }),
        ..batch
    }
}

/// The batches of the first `n` events, one per family in order of first
/// appearance, or the first reason they are refused.
pub open spec fn partition_prefix(events: Seq<MaterialEvent>, n: nat) -> Result<Seq<MacroMaterialBatch>, MacroMaterialError>
    decreases n,
{
    if n == 0 {
        Ok(Seq::empty())
    } else {
        match partition_prefix(events, (n - 1) as nat) {
            Err(error) => Err(error),
            Ok(batches) => {
                let event = events[n - 1];
                if event.source != events[0].source {
                    Err(MacroMaterialError::MixedSource)
                } else {
                    match material_kind_spec(event.kind) {
                        None => Err(MacroMaterialError::UnsupportedKind(event.kind)),
                        Some(kind) => if event.journal_sequence.0 == 0 {
                            Err(MacroMaterialError::MissingSequence)
                        } else {
                            match batch_of(batches, kind, batches.len()) {
                                Some(i) => if event.journal_sequence.0 <= batches[i].last_sequence.0 {
                                    Err(MacroMaterialError::NonIncreasingSequence)
                                } else {
                                    Ok(batches.update(i, extended_batch(batches[i], event)))
                                },
                                None => Ok(
                                    batches.push(
                                        MacroMaterialBatch {
                                            source: event.source,
                                            kind,
                                            first_sequence: event.journal_sequence,
                                            last_sequence: event.journal_sequence,
                                            ts_received_ns: event.ts_received_ns,
                                            event_count: 1,
                                            correction_count: if event.correction {
                                                1
                                            } else {
                                                0
                                            },
                                        },
                                    ),
                                ),
                            }
                        },
                    }
                }
            },
        }
    }
}

/// The batches of a whole event list; an empty list is refused.
pub open spec fn partition_spec(events: Seq<MaterialEvent>) -> Result<Seq<MacroMaterialBatch>, MacroMaterialError> {
    if events.len() == 0 {
        Err(MacroMaterialError::Empty)
    } else {
        partition_prefix(events, events.len())
    }
}

/// Material family of an event kind.
fn material_kind(kind: EventKind) -> (material: Option<MacroMaterialKind>)
    ensures
        material == material_kind_spec(kind),
{
    match kind {
        EventKind::MacroObservation => Some(MacroMaterialKind::Observations),
        EventKind::PositioningObservation => Some(MacroMaterialKind::Positioning),
        EventKind::MacroRelease | EventKind::SourceDocument => Some(MacroMaterialKind::Provenance),
        _ => None,
    }
}

impl MacroMaterialBatch {
    /// The single receipt of a batch of one source and one family.
    pub fn from_events(events: &[MaterialEvent]) -> (result: Result<MacroMaterialBatch, MacroMaterialError>)
        ensures
            match partition_spec(events@) {
                Err(error) => result == Err::<MacroMaterialBatch, MacroMaterialError>(error),
                Ok(batches) => if batches.len() == 1 {
                    result == Ok::<MacroMaterialBatch, MacroMaterialError>(batches[0])
                } else {
                    result == Err::<MacroMaterialBatch, MacroMaterialError>(MacroMaterialError::MixedKind)
                },
            },
    {
        let batches = Self::partition(events)?;
        if batches.len() != 1 {
            return Err(MacroMaterialError::MixedKind);
        }
        Ok(batches[0])
    }

    /// One receipt per material family, in order of first appearance. Every
    /// event must share the first event's source, belong to a material
    /// family, carry a committed sequence, and follow the earlier events of
    /// its family.
    pub fn partition(events: &[MaterialEvent]) -> (result: Result<Vec<MacroMaterialBatch>, MacroMaterialError>)
        ensures
            match partition_spec(events@) {
                Err(error) => result == Err::<Vec<MacroMaterialBatch>, MacroMaterialError>(error),
                Ok(batches) => result matches Ok(found) && found@ == batches,
            },
    {
        let n = events.len();
        if n == 0 {
            return Err(MacroMaterialError::Empty);
        }
        let source = events[0].source;
        let mut batches: Vec<MacroMaterialBatch> = Vec::new();
        let mut i: usize = 0;
        while i < n
            invariant
                n == events@.len(),
                n > 0,
                source == events@[0].source,
                0 <= i <= n,
                partition_prefix(events@, i as nat) == Ok::<Seq<MacroMaterialBatch>, MacroMaterialError>(batches@),
            decreases n - i,
        {
            let event = events[i];
            if event.source.0 != source.0 {
                proof {
                    lemma_error_sticks(events@, (i + 1) as nat, n as nat);
                }
                return Err(MacroMaterialError::MixedSource);
            }
            let kind = match material_kind(event.kind) {
                Some(kind) => kind,
                None => {
                    proof {
                        lemma_error_sticks(events@, (i + 1) as nat, n as nat);
                    }
                    return Err(MacroMaterialError::UnsupportedKind(event.kind));
                },
            };
            if event.journal_sequence.0 == 0 {
                proof {
                    lemma_error_sticks(events@, (i + 1) as nat, n as nat);
                }
                return Err(MacroMaterialError::MissingSequence);
            }
            let m = batches.len();
            let mut j: usize = 0;
            while j < m && batches[j].kind != kind
                invariant
                    m == batches@.len(),
                    0 <= j <= m,
                    batch_of(batches@, kind, j as nat) is None,
                decreases m - j,
            {
                j = j + 1;
            }
            proof {
                lemma_batch_of_found(batches@, kind, j as nat);
            }
            if j < m {
                if event.journal_sequence.0 <= batches[j].last_sequence.0 {
                    proof {
                        lemma_error_sticks(events@, (i + 1) as nat, n as nat);
                    }
                    return Err(MacroMaterialError::NonIncreasingSequence);
                }
                let current = batches[j];
                let corrected: u32 = if event.correction {
                    1
                } else {
                    0
                };
                let updated = MacroMaterialBatch {
                    last_sequence: event.journal_sequence,
                    ts_received_ns: if event.ts_received_ns > current.ts_received_ns {
                        event.ts_received_ns
                    } else {
                        current.ts_received_ns
                    },
                    event_count: current.event_count.saturating_add(1),
                    correction_count: current.correction_count.saturating_add(corrected),
                    ..current
                };
                batches.set(j, updated);
            } else {
                batches.push(
                    MacroMaterialBatch {
                        source: event.source,
                        kind,
                        first_sequence: event.journal_sequence,
                        last_sequence: event.journal_sequence,
                        ts_received_ns: event.ts_received_ns,
                        event_count: 1,
                        correction_count: if event.correction {
                            1
                        } else {
                            0
                        },
                    },
                );
            }
            proof {
                assert(events@[i as int] == event);
            }
            i = i + 1;
        }
        Ok(batches)
    }
}

/// A refused prefix refuses the whole list with the same error.
proof fn lemma_error_sticks(events: Seq<MaterialEvent>, k: nat, n: nat)
    requires
        k <= n,
        partition_prefix(events, k) is Err,
    ensures
        partition_prefix(events, n) == partition_prefix(events, k),
    decreases n - k,
{
    if k < n {
        lemma_error_sticks(events, k, (n - 1) as nat);
    }
}

/// The search stopped at the first batch of `kind`, or found none.
proof fn lemma_batch_of_found(batches: Seq<MacroMaterialBatch>, kind: MacroMaterialKind, j: nat)
    requires
        j <= batches.len(),
        batch_of(batches, kind, j) is None,
        j == batches.len() || batches[j as int].kind == kind,
    ensures
        batch_of(batches, kind, batches.len()) == if j < batches.len() {
            Some(j as int)
        } else {
            None::<int>
        },
{
    if j < batches.len() {
        lemma_batch_of_stable(batches, kind, (j + 1) as nat, batches.len());
    }
}

/// Once found, the first batch of a family stays the first.
proof fn lemma_batch_of_stable(batches: Seq<MacroMaterialBatch>, kind: MacroMaterialKind, k: nat, n: nat)
    requires
        k <= n <= batches.len(),
        batch_of(batches, kind, k) is Some,
    ensures
        batch_of(batches, kind, n) == batch_of(batches, kind, k),
    decreases n - k,
{
    if k < n {
        lemma_batch_of_stable(batches, kind, k, (n - 1) as nat);
    }
}

} // verus!
