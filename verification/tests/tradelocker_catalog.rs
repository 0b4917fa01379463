use northstar_index_fund::data_plane::instruments;
use northstar_index_fund::operating::snapshot::Availability;
use northstar_index_fund::operating::tradelocker_source::{
    validate_manifest, CatalogBinding, CatalogManifest, TradeLockerSourcePollError, TradeLockerTransportFailure,
};

fn binding(id: u32, symbol: &str, provider: &str) -> CatalogBinding {
    CatalogBinding {
        instrument_id: id,
        northstar_symbol: symbol.to_string(),
        provider_symbol: provider.to_string(),
        price_scale: 100,
    }
}

fn catalog() -> CatalogManifest {
    CatalogManifest {
        schema_version: 1,
        catalog_version: 3,
        environment: "live".to_string(),
        bindings: vec![
            binding(1, "US100", "NAS100"),
            binding(2, "US500", "SPX500"),
            binding(3, "US30", "DJI30"),
            binding(4, "DE40", "GER40"),
            binding(5, "UK100", "UK100"),
            binding(6, "JP225", "JPN225"),
        ],
    }
}

#[test]
fn six_index_catalog_maps_each_permanent_id_in_order() {
    let bindings = validate_manifest(catalog()).expect("valid catalog");
    assert_eq!(bindings.len(), 6);
    assert_eq!(bindings[0].instrument, instruments::us100());
    assert_eq!(bindings[5].instrument, instruments::jp225());
    assert_eq!(bindings[3].provider_symbol, "GER40");
    assert_eq!(bindings[4].price_scale, 100);
}

#[test]
fn catalog_outside_the_authority_contract_is_refused() {
    let mut demo = catalog();
    demo.environment = "demo".to_string();
    assert!(validate_manifest(demo).is_none());

    let mut short = catalog();
    short.bindings.pop();
    assert!(validate_manifest(short).is_none());

    let mut renamed = catalog();
    renamed.bindings[2].northstar_symbol = "DOW".to_string();
    assert!(validate_manifest(renamed).is_none());

    let mut shared_symbol = catalog();
    shared_symbol.bindings[1].provider_symbol = "NAS100".to_string();
    assert!(validate_manifest(shared_symbol).is_none());

    let mut repeated = catalog();
    repeated.bindings[5] = binding(1, "US100", "NAS100-B");
    assert!(validate_manifest(repeated).is_none());

    let mut unpriced = catalog();
    unpriced.bindings[0].price_scale = 0;
    assert!(validate_manifest(unpriced).is_none());

    let mut unnamed = catalog();
    unnamed.bindings[0].provider_symbol = String::new();
    assert!(validate_manifest(unnamed).is_none());

    let mut unknown = catalog();
    unknown.bindings[0] = binding(7, "US100", "NAS100");
    assert!(validate_manifest(unknown).is_none());

    let mut versionless = catalog();
    versionless.catalog_version = 0;
    assert!(validate_manifest(versionless).is_none());

    let mut future = catalog();
    future.schema_version = 2;
    assert!(validate_manifest(future).is_none());
}

#[test]
fn failed_polls_leave_the_venue_stale_disconnected_or_invalid() {
    assert_eq!(
        TradeLockerSourcePollError::Transport(TradeLockerTransportFailure::RateLimited).availability(),
        Availability::Stale
    );
    assert_eq!(
        TradeLockerSourcePollError::Transport(TradeLockerTransportFailure::AuthorizationRejected).availability(),
        Availability::Disconnected
    );
    assert_eq!(
        TradeLockerSourcePollError::Transport(TradeLockerTransportFailure::AuthenticationRejected).availability(),
        Availability::Disconnected
    );
    assert_eq!(
        TradeLockerSourcePollError::Transport(TradeLockerTransportFailure::Other).availability(),
        Availability::Invalid
    );
    assert_eq!(TradeLockerSourcePollError::Decode.availability(), Availability::Invalid);
}
