//! The desk projector of a validated Massive index catalog: one instrument
//! per binding, carrying the binding's display name, provider ticker, price
//! scale and reference role.

use super::market::projector::{MarketProjector, instruments_error};
use super::market::{MarketInstrument, MarketProjectorError, ReferenceRole, instrument_error, refused_as};
use super::snapshot::OperatingMode;
use crate::data_plane::InstrumentId;
use vstd::prelude::*;

verus! {

/// How a catalog binding relates to the desk instrument it feeds.
#[derive(Clone, Copy, Debug, PartialEq, Eq, Structural)]
pub enum MassiveReferenceRole {
    ExactBenchmark,
    ReferenceProxy,
}

/// One index binding of a validated catalog.
#[derive(Clone, Debug)]
pub struct MassiveIndexBinding {
    pub instrument: InstrumentId,
    pub display_name: String,
    pub provider_ticker: String,
    pub price_scale: i64,
    pub reference_role: MassiveReferenceRole,
}

/// Desk role of a catalog role: a proxy is context, not the benchmark.
pub open spec fn desk_role(role: MassiveReferenceRole) -> ReferenceRole {
    match role {
        MassiveReferenceRole::ExactBenchmark => ReferenceRole::ExactBenchmark,
        MassiveReferenceRole::ReferenceProxy => ReferenceRole::ContextProxy,
    }
}

/// A binding describes a valid instrument.
pub open spec fn binding_valid(binding: MassiveIndexBinding) -> bool {
    instrument_error(
        binding.instrument,
        binding.display_name@,
        vstd::utf8::encode_utf8(binding.provider_ticker@),
        binding.price_scale,
    ) is None
}

/// `instrument` is the desk instrument of `binding`.
pub open spec fn instrument_of(instrument: MarketInstrument, binding: MassiveIndexBinding) -> bool {
    &&& instrument.id == binding.instrument
    &&& instrument.display_name@ == binding.display_name@
    &&& instrument.reference_symbol@ == binding.provider_ticker@
    &&& instrument.reference_role == desk_role(binding.reference_role)
    &&& instrument.price_scale == binding.price_scale
}

/// `instruments` are the desk instruments of `bindings`, one for one.
pub open spec fn instruments_of(instruments: Seq<MarketInstrument>, bindings: Seq<MassiveIndexBinding>) -> bool {
    &&& instruments.len() == bindings.len()
    &&& forall|k: int| 0 <= k < bindings.len() ==> instrument_of(#[trigger] instruments[k], bindings[k])
}

/// The projector of a catalog. The first binding that describes no valid
/// instrument refuses the catalog with that instrument's error; otherwise
/// the instruments are refused as a set or become the projector's.
pub fn projector_from_massive_catalog(mode: OperatingMode, bindings: &[MassiveIndexBinding]) -> (result: Result<
    MarketProjector,
    MarketProjectorError,
>)
    ensures
        match result {
            Ok(projector) => {
                &&& forall|k: int| 0 <= k < bindings@.len() ==> binding_valid(#[trigger] bindings@[k])
                &&& projector.wf()
                &&& projector.mode_spec() == mode
                &&& projector.generation_spec() == 0
                &&& exists|instruments: Seq<MarketInstrument>|
                    instruments_of(instruments, bindings@) && instruments_error(instruments) is None
                        && projector.instruments_spec().to_multiset() == instruments.to_multiset()
            },
            Err(error) => {
                ||| exists|k: int|
                    0 <= k < bindings@.len() && (forall|j: int| 0 <= j < k ==> binding_valid(#[trigger] bindings@[j]))
                        && refused_as(
                        error,
                        bindings@[k].instrument,
                        bindings@[k].display_name@,
                        bindings@[k].provider_ticker@,
                        bindings@[k].price_scale,
                    )
                ||| (forall|k: int| 0 <= k < bindings@.len() ==> binding_valid(#[trigger] bindings@[k])) && exists|
                    instruments: Seq<MarketInstrument>,
                | instruments_of(instruments, bindings@) && instruments_error(instruments) == Some(error)
            },
        },
{
    let mut instruments: Vec<MarketInstrument> = Vec::new();
    let n = bindings.len();
    let mut k: usize = 0;
    while k < n
        invariant
            n == bindings@.len(),
            0 <= k <= n,
            instruments@.len() == k,
            forall|j: int| 0 <= j < k ==> binding_valid(#[trigger] bindings@[j]),
            forall|j: int| 0 <= j < k ==> instrument_of(#[trigger] instruments@[j], bindings@[j]),
        decreases n - k,
    {
        let binding = &bindings[k];
        let role = match binding.reference_role {
            MassiveReferenceRole::ExactBenchmark => ReferenceRole::ExactBenchmark,
            MassiveReferenceRole::ReferenceProxy => ReferenceRole::ContextProxy,
        };
        match MarketInstrument::new_with_role(
            binding.instrument,
            binding.display_name.clone(),
            binding.provider_ticker.clone(),
            binding.price_scale,
            role,
        ) {
            Ok(instrument) => {
                instruments.push(instrument);
            },
            Err(error) => {
                return Err(error);
            },
        }
        k = k + 1;
    }
    let ghost converted = instruments@;
    proof {
        assert(instruments_of(converted, bindings@));
    }
    MarketProjector::new(mode, instruments)
}

} // verus!
