//! Catalog identities of the six governed indices.

use super::InstrumentId;
use vstd::prelude::*;

verus! {

/// Catalog identity of US100.
pub fn us100() -> (id: InstrumentId)
    ensures
        id.0 == 1,
{
    InstrumentId(1)
}

/// Catalog identity of US500.
pub fn us500() -> (id: InstrumentId)
    ensures
        id.0 == 2,
{
    InstrumentId(2)
}

/// Catalog identity of US30.
pub fn us30() -> (id: InstrumentId)
    ensures
        id.0 == 3,
{
    InstrumentId(3)
}

/// Catalog identity of DE40.
pub fn de40() -> (id: InstrumentId)
    ensures
        id.0 == 4,
{
    InstrumentId(4)
}

/// Catalog identity of UK100.
pub fn uk100() -> (id: InstrumentId)
    ensures
        id.0 == 5,
{
    InstrumentId(5)
}

/// Catalog identity of JP225.
pub fn jp225() -> (id: InstrumentId)
    ensures
        id.0 == 6,
{
    InstrumentId(6)
}

} // verus!
