//! Source identities of the official macro providers.

pub mod tradelocker;

use super::SourceId;
use vstd::prelude::*;

verus! {

/// Source identity of BLS.
pub fn bls_source() -> (source: SourceId)
    ensures
        source.0 == 20,
{
    SourceId(20)
}

/// Source identity of CFTC.
pub fn cftc_source() -> (source: SourceId)
    ensures
        source.0 == 21,
{
    SourceId(21)
}

/// Source identity of Eurostat.
pub fn eurostat_source() -> (source: SourceId)
    ensures
        source.0 == 22,
{
    SourceId(22)
}

/// Source identity of FRED.
pub fn fred_source() -> (source: SourceId)
    ensures
        source.0 == 23,
{
    SourceId(23)
}

/// Source identity of BEA.
pub fn bea_source() -> (source: SourceId)
    ensures
        source.0 == 24,
{
    SourceId(24)
}

/// Source identity of Census.
pub fn census_source() -> (source: SourceId)
    ensures
        source.0 == 25,
{
    SourceId(25)
}

/// Source identity of ECB.
pub fn ecb_source() -> (source: SourceId)
    ensures
        source.0 == 26,
{
    SourceId(26)
}

/// Source identity of ONS.
pub fn ons_source() -> (source: SourceId)
    ensures
        source.0 == 27,
{
    SourceId(27)
}

/// Source identity of Bank of England.
pub fn boe_source() -> (source: SourceId)
    ensures
        source.0 == 28,
{
    SourceId(28)
}

/// Source identity of Bank of Japan.
pub fn boj_source() -> (source: SourceId)
    ensures
        source.0 == 29,
{
    SourceId(29)
}

} // verus!
