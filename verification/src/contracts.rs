//! Shared office vocabulary: the governed indices and gate outcomes.

use vstd::prelude::*;

verus! {

/// A governed index.
#[derive(Clone, Copy, Debug, PartialEq, Eq, Hash, Structural)]
pub enum IndexKey {
    Us100,
    Us500,
    Us30,
    De40,
    Uk100,
    Jp225,
}

/// Dense position of a indexKey in declaration order.
pub open spec fn index_key_ordinal_spec(value: IndexKey) -> int {
    match value {
        IndexKey::Us100 => 0,
        IndexKey::Us500 => 1,
        IndexKey::Us30 => 2,
        IndexKey::De40 => 3,
        IndexKey::Uk100 => 4,
        IndexKey::Jp225 => 5,
    }
}

impl IndexKey {
    /// Every value in declaration order.
    pub fn all() -> (values: [IndexKey; 6])
        ensures
            forall|i: int| 0 <= i < 6 ==> index_key_ordinal_spec(#[trigger] values@[i]) == i,
    {
        [IndexKey::Us100, IndexKey::Us500, IndexKey::Us30, IndexKey::De40, IndexKey::Uk100, IndexKey::Jp225]
    }

    /// Dense position in declaration order.
    pub fn ordinal(self) -> (ordinal: usize)
        ensures
            ordinal == index_key_ordinal_spec(self),
    {
        match self {
            IndexKey::Us100 => 0,
            IndexKey::Us500 => 1,
            IndexKey::Us30 => 2,
            IndexKey::De40 => 3,
            IndexKey::Uk100 => 4,
            IndexKey::Jp225 => 5,
        }
    }
}

/// Outcome of a gate.
#[derive(Clone, Copy, Debug, PartialEq, Eq, Hash, Structural)]
pub enum GateStatus {
    Pass,
    Observe,
    Wait,
}

/// Dense position of a gateStatus in declaration order.
pub open spec fn gate_status_ordinal_spec(value: GateStatus) -> int {
    match value {
        GateStatus::Pass => 0,
        GateStatus::Observe => 1,
        GateStatus::Wait => 2,
    }
}

impl GateStatus {
    /// Every value in declaration order.
    pub fn all() -> (values: [GateStatus; 3])
        ensures
            forall|i: int| 0 <= i < 3 ==> gate_status_ordinal_spec(#[trigger] values@[i]) == i,
    {
        [GateStatus::Pass, GateStatus::Observe, GateStatus::Wait]
    }

    /// Dense position in declaration order.
    pub fn ordinal(self) -> (ordinal: usize)
        ensures
            ordinal == gate_status_ordinal_spec(self),
    {
        match self {
            GateStatus::Pass => 0,
            GateStatus::Observe => 1,
            GateStatus::Wait => 2,
        }
    }
}

} // verus!
