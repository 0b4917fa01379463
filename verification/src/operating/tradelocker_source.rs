//! The TradeLocker catalog: the six governed indices bound to the venue's
//! symbols, accepted only as a whole.

use crate::data_plane::providers::tradelocker::TradeLockerBinding;
use crate::data_plane::InstrumentId;
use crate::market_state::id_table::{id_table_map, IdTable};
use crate::operating::snapshot::Availability;
use vstd::prelude::*;

verus! {

/// One catalog entry as written in the catalog file.
#[derive(Clone, Debug)]
pub struct CatalogBinding {
    pub instrument_id: u32,
    pub northstar_symbol: String,
    pub provider_symbol: String,
    pub price_scale: i64,
}

/// The catalog file as written.
#[derive(Clone, Debug)]
pub struct CatalogManifest {
    pub schema_version: u32,
    pub catalog_version: u32,
    pub environment: String,
    pub bindings: Vec<CatalogBinding>,
}

/// A `hashbrown::HashSet<String>` of venue symbols.
#[verifier::external_body]
pub struct SymbolSet {
    set: hashbrown::HashSet<String>,
}

/// The symbols a symbol set holds.
pub uninterp spec fn symbol_set_view(set: SymbolSet) -> Set<Seq<char>>;

impl SymbolSet {
    /// `hashbrown::HashSet::new`: a new set holds nothing.
    #[verifier::external_body]
    pub fn new() -> (set: SymbolSet)
        ensures
            symbol_set_view(set) == Set::<Seq<char>>::empty(),
    {
        SymbolSet { set: hashbrown::HashSet::new() }
    }

    /// `hashbrown::HashSet::insert`: adds the symbol, and reports whether it
    /// was absent before.
    #[verifier::external_body]
    pub fn insert(&mut self, symbol: String) -> (added: bool)
        ensures
            added == !symbol_set_view(*old(self)).contains(symbol@),
            symbol_set_view(*final(self)) == symbol_set_view(*old(self)).insert(symbol@),
    {
        self.set.insert(symbol)
    }
}

/// The Northstar symbol of each governed index identity.
pub open spec fn expected_symbol(instrument_id: u32) -> Option<Seq<char>> {
    if instrument_id == 1 {
        Some("US100"@)
    } else if instrument_id == 2 {
        Some("US500"@)
    } else if instrument_id == 3 {
        Some("US30"@)
    } else if instrument_id == 4 {
        Some("DE40"@)
    } else if instrument_id == 5 {
        Some("UK100"@)
    } else if instrument_id == 6 {
        Some("JP225"@)
    } else {
        None
    }
}

/// An entry names a governed index by its own symbol, a venue symbol and a
/// positive price scale.
pub open spec fn binding_fits(binding: CatalogBinding) -> bool {
    &&& expected_symbol(binding.instrument_id) == Some(binding.northstar_symbol@)
    &&& binding.provider_symbol@.len() > 0
    &&& binding.price_scale > 0
}

/// The six-index authority contract: schema one, a catalog version, the
/// live environment, and six fitting entries with distinct indices and
/// distinct venue symbols.
pub open spec fn catalog_valid(manifest: CatalogManifest) -> bool {
    &&& manifest.schema_version == 1
    &&& manifest.catalog_version != 0
    &&& manifest.environment@ == "live"@
    &&& manifest.bindings@.len() == 6
    &&& forall|i: int| 0 <= i < manifest.bindings@.len() ==> binding_fits(#[trigger] manifest.bindings@[i])
    &&& forall|i: int, j: int|
        0 <= i < j < manifest.bindings@.len() ==> (#[trigger] manifest.bindings@[i]).instrument_id
            != (#[trigger] manifest.bindings@[j]).instrument_id && manifest.bindings@[i].provider_symbol@
            != manifest.bindings@[j].provider_symbol@
}

fn expected_symbol_text(instrument_id: u32) -> (symbol: Option<&'static str>)
    ensures
        match symbol {
            Some(text) => expected_symbol(instrument_id) == Some(text@),
            None => expected_symbol(instrument_id) is None,
        },
{
    if instrument_id == 1 {
        Some("US100")
    } else if instrument_id == 2 {
        Some("US500")
    } else if instrument_id == 3 {
        Some("US30")
    } else if instrument_id == 4 {
        Some("DE40")
    } else if instrument_id == 5 {
        Some("UK100")
    } else if instrument_id == 6 {
        Some("JP225")
    } else {
        None
    }
}

/// The venue bindings of a catalog, in catalog order, when the catalog
/// keeps the six-index authority contract; nothing otherwise.
pub fn validate_manifest(manifest: CatalogManifest) -> (bindings: Option<Vec<TradeLockerBinding>>)
    ensures
        bindings is Some <==> catalog_valid(manifest),
        bindings matches Some(list) ==> {
            &&& list@.len() == manifest.bindings@.len()
            &&& forall|i: int|
                0 <= i < list@.len() ==> {
                    &&& (#[trigger] list@[i]).instrument == InstrumentId(manifest.bindings@[i].instrument_id)
                    &&& list@[i].provider_symbol@ == manifest.bindings@[i].provider_symbol@
                    &&& list@[i].price_scale == manifest.bindings@[i].price_scale
                }
        },
{
    proof {
        reveal_strlit("live");
    }
    if manifest.schema_version != 1 || manifest.catalog_version == 0 || !(manifest.environment
        == "live".to_owned()) || manifest.bindings.len() != 6 {
        return None;
    }
    let ghost entries = manifest.bindings@;
    let mut seen_ids = IdTable::new();
    let mut seen_symbols = SymbolSet::new();
    let mut output: Vec<TradeLockerBinding> = Vec::new();
    let n = manifest.bindings.len();
    let mut i: usize = 0;
    while i < n
        invariant
            n == entries.len(),
            entries == manifest.bindings@,
            0 <= i <= n,
            output@.len() == i,
            forall|j: int| 0 <= j < i ==> binding_fits(#[trigger] entries[j]),
            forall|a: int, b: int|
                0 <= a < b < i ==> (#[trigger] entries[a]).instrument_id != (#[trigger] entries[b]).instrument_id
                    && entries[a].provider_symbol@ != entries[b].provider_symbol@,
            forall|k: u64| #![trigger id_table_map(seen_ids).dom().contains(k)] id_table_map(seen_ids).dom().contains(k) <==> exists|j: int|
                0 <= j < i && (#[trigger] entries[j]).instrument_id as u64 == k,
            forall|s: Seq<char>| #![trigger symbol_set_view(seen_symbols).contains(s)] symbol_set_view(seen_symbols).contains(s) <==> exists|j: int|
                0 <= j < i && (#[trigger] entries[j]).provider_symbol@ == s,
            forall|j: int|
                0 <= j < i ==> {
                    &&& (#[trigger] output@[j]).instrument == InstrumentId(entries[j].instrument_id)
                    &&& output@[j].provider_symbol@ == entries[j].provider_symbol@
                    &&& output@[j].price_scale == entries[j].price_scale
                },
        decreases n - i,
    {
        let binding = &manifest.bindings[i];
        let expected = match expected_symbol_text(binding.instrument_id) {
            Some(text) => text,
            None => {
                return None;
            },
        };
        if !(binding.northstar_symbol == expected.to_owned()) || binding.provider_symbol.as_str().is_empty()
            || binding.price_scale <= 0 {
            return None;
        }
        let previous = seen_ids.insert(binding.instrument_id as u64, 0);
        if previous.is_some() {
            proof {
                let j = choose|j: int| 0 <= j < i && (#[trigger] entries[j]).instrument_id as u64 == binding.instrument_id as u64;
                assert(entries[j].instrument_id == entries[i as int].instrument_id);
            }
            return None;
        }
        let added = seen_symbols.insert(binding.provider_symbol.clone());
        if !added {
            proof {
                let j = choose|j: int| 0 <= j < i && (#[trigger] entries[j]).provider_symbol@ == binding.provider_symbol@;
                assert(entries[j].provider_symbol@ == entries[i as int].provider_symbol@);
            }
            return None;
        }
        output.push(
            TradeLockerBinding {
                instrument: InstrumentId(binding.instrument_id),
                provider_symbol: binding.provider_symbol.clone(),
                price_scale: binding.price_scale,
            },
        );
        i = i + 1;
    }
    Some(output)
}

/// How a TradeLocker transport call failed, as far as the desk's
/// availability depends on it.
#[derive(Clone, Copy, Debug, PartialEq, Eq, Structural)]
pub enum TradeLockerTransportFailure {
    RateLimited,
    AuthorizationRejected,
    AuthenticationRejected,
    Other,
}

/// Why one TradeLocker poll failed.
#[derive(Clone, Copy, Debug, PartialEq, Eq, Structural)]
pub enum TradeLockerSourcePollError {
    Transport(TradeLockerTransportFailure),
    Decode,
}

/// The availability a failed poll leaves: stale when rate limited,
/// disconnected when credentials are refused, invalid otherwise.
pub open spec fn poll_error_availability(error: TradeLockerSourcePollError) -> Availability {
    match error {
        TradeLockerSourcePollError::Transport(TradeLockerTransportFailure::RateLimited) => Availability::Stale,
        TradeLockerSourcePollError::Transport(TradeLockerTransportFailure::AuthorizationRejected) => Availability::Disconnected,
        TradeLockerSourcePollError::Transport(TradeLockerTransportFailure::AuthenticationRejected) => Availability::Disconnected,
        _ => Availability::Invalid,
    }
}

impl TradeLockerSourcePollError {
    /// The availability this failure leaves the venue in.
    pub fn availability(&self) -> (availability: Availability)
        ensures
            availability == poll_error_availability(*self),
    {
        match self {
            TradeLockerSourcePollError::Transport(TradeLockerTransportFailure::RateLimited) => Availability::Stale,
            TradeLockerSourcePollError::Transport(TradeLockerTransportFailure::AuthorizationRejected)
            | TradeLockerSourcePollError::Transport(TradeLockerTransportFailure::AuthenticationRejected) => Availability::Disconnected,
            _ => Availability::Invalid,
        }
    }
}

} // verus!
