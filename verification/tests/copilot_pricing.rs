//! Prices from the catalog.

use jcode_copilot::copilot_catalog::{
    catalog_billing_for, clear_catalog_billing, record_catalog_billing, CatalogBilling,
};
use jcode_copilot::copilot_catalog_pricing::{
    estimate_from_catalog, CopilotCatalogBilling, CopilotTokenPricesTier,
};
use jcode_copilot::route_cost::{RouteBillingKind, RouteCostConfidence, RouteCostSource};
use jcode_copilot::wire::read_models;

#[test]
fn claude_sonnet_4_6_matches_opencode_conversion() {
    let billing = CopilotCatalogBilling {
        batch_size: 1_000_000,
        default: CopilotTokenPricesTier {
            input_price: 300,
            output_price: 1500,
            cache_price: 30,
        },
    };
    let est = estimate_from_catalog(Some(&billing)).expect("should produce estimate");
    assert_eq!(est.billing_kind, RouteBillingKind::Metered);
    assert_eq!(est.input_price_per_mtok_micros, Some(3_000_000));
    assert_eq!(est.output_price_per_mtok_micros, Some(15_000_000));
    assert_eq!(est.cache_read_price_per_mtok_micros, Some(300_000));
    assert_eq!(est.source, RouteCostSource::CopilotCatalog);
}

#[test]
fn claude_opus_4_6_from_real_capture() {
    let billing = CopilotCatalogBilling {
        batch_size: 1_000_000,
        default: CopilotTokenPricesTier {
            input_price: 500,
            output_price: 2500,
            cache_price: 50,
        },
    };
    let est = estimate_from_catalog(Some(&billing)).expect("should produce estimate");
    assert_eq!(est.input_price_per_mtok_micros, Some(5_000_000));
    assert_eq!(est.output_price_per_mtok_micros, Some(25_000_000));
    assert_eq!(est.cache_read_price_per_mtok_micros, Some(500_000));
}

#[test]
fn absent_billing_returns_none() {
    // Without billing data the caller falls back to the subscription heuristic.
    assert!(estimate_from_catalog(None).is_none());
}

#[test]
fn zero_batch_size_returns_none() {
    let billing = CopilotCatalogBilling {
        batch_size: 0,
        default: CopilotTokenPricesTier {
            input_price: 300,
            output_price: 1500,
            cache_price: 30,
        },
    };
    assert!(estimate_from_catalog(Some(&billing)).is_none());
}

#[test]
fn zero_prices_produce_zero_estimate() {
    let billing = CopilotCatalogBilling {
        batch_size: 1_000_000,
        default: CopilotTokenPricesTier {
            input_price: 0,
            output_price: 0,
            cache_price: 0,
        },
    };
    let est = estimate_from_catalog(Some(&billing)).expect("should produce estimate");
    assert_eq!(est.input_price_per_mtok_micros, Some(0));
    assert_eq!(est.output_price_per_mtok_micros, Some(0));
    assert_eq!(est.cache_read_price_per_mtok_micros, Some(0));
}

#[test]
fn non_million_batch_size_scales_correctly() {
    let billing = CopilotCatalogBilling {
        batch_size: 1000,
        default: CopilotTokenPricesTier {
            input_price: 300,
            output_price: 1500,
            cache_price: 30,
        },
    };
    let est = estimate_from_catalog(Some(&billing)).expect("should produce estimate");
    assert_eq!(est.input_price_per_mtok_micros, Some(3_000_000_000));
}

#[test]
fn estimates_from_the_catalog_say_where_they_come_from() {
    let billing = CopilotCatalogBilling {
        batch_size: 1_000_000,
        default: CopilotTokenPricesTier::default(),
    };
    let est = estimate_from_catalog(Some(&billing)).unwrap();
    assert_eq!(est.confidence, RouteCostConfidence::High);
    assert_eq!(
        est.note.as_deref(),
        Some("Copilot live catalog per-token pricing")
    );
}

#[test]
fn prices_too_large_for_a_number_lose_their_high_bits() {
    let billing = CopilotCatalogBilling {
        batch_size: 1,
        default: CopilotTokenPricesTier {
            input_price: u64::MAX,
            output_price: 1,
            cache_price: 0,
        },
    };
    let est = estimate_from_catalog(Some(&billing)).unwrap();
    assert_eq!(est.input_price_per_mtok_micros, Some(u64::MAX - 9_999_999_999));
    assert_eq!(est.output_price_per_mtok_micros, Some(10_000_000_000));
}

#[test]
fn recorded_prices_are_found_again_by_model() {
    let models = read_models(
        r#"{"data":[
            {"id":"priced","billing":{"token_prices":{"batch_size":1000000,
                "default":{"input_price":300,"output_price":1500,"cache_price":30}}}},
            {"id":"unpriced"}
        ]}"#,
    )
    .unwrap();
    let mut billing = CatalogBilling::new();
    record_catalog_billing(&mut billing, &models);
    let found = catalog_billing_for(&billing, "priced").unwrap();
    assert_eq!(found.batch_size, 1_000_000);
    assert_eq!(found.default.input_price, 300);
    assert_eq!(found.default.output_price, 1500);
    assert_eq!(found.default.cache_price, 30);
    assert!(catalog_billing_for(&billing, "unpriced").is_none());

    // A catalog without prices keeps what was known.
    let unpriced = read_models(r#"{"data":[{"id":"other"}]}"#).unwrap();
    record_catalog_billing(&mut billing, &unpriced);
    assert!(catalog_billing_for(&billing, "priced").is_some());

    clear_catalog_billing(&mut billing);
    assert!(catalog_billing_for(&billing, "priced").is_none());
}
