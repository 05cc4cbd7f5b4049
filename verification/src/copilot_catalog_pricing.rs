//! Prices per token, derived from the live Copilot `/models` catalog.
//!
//! The catalog states prices in AI credits per `batch_size` tokens. A credit is
//! worth a cent, so a price in microdollars per million tokens is the price in
//! credits times ten billion, divided by the batch size.

use crate::route_cost::{
    EstimateView, RouteBillingKind, RouteCheapnessEstimate, RouteCostConfidence, RouteCostSource,
};
use crate::text::owned;
use vstd::prelude::*;

verus! {

/// The prices of one tier of the catalog, in AI credits.
#[derive(Clone, Copy, Debug, PartialEq, Eq, Structural)]
pub struct CopilotTokenPricesTier {
    pub input_price: u64,
    pub output_price: u64,
    pub cache_price: u64,
}

impl Default for CopilotTokenPricesTier {
    fn default() -> (r: CopilotTokenPricesTier)
        ensures
            r == (CopilotTokenPricesTier { input_price: 0, output_price: 0, cache_price: 0 }),
    {
        CopilotTokenPricesTier { input_price: 0, output_price: 0, cache_price: 0 }
    }
}

/// The billing data of one model's catalog entry.
#[derive(Clone, Copy, Debug, PartialEq, Eq, Structural)]
pub struct CopilotCatalogBilling {
    /// How many tokens the prices apply to.
    pub batch_size: u64,
    pub default: CopilotTokenPricesTier,
}

/// Microdollars per million tokens for a price in credits per batch. A price
/// that 64 bits cannot hold loses its high bits.
pub open spec fn micros(credits: u64, batch_size: u64) -> int {
    ((credits * 10_000_000_000) / (batch_size as int)) % 0x1_0000_0000_0000_0000
}

/// The note that comes with an estimate from the catalog.
pub open spec fn catalog_note() -> Seq<char> {
    "Copilot live catalog per-token pricing"@
}

/// The estimate for billing data with a batch size.
pub open spec fn catalog_estimate(billing: CopilotCatalogBilling) -> EstimateView {
    EstimateView {
        billing_kind: RouteBillingKind::Metered,
        source: RouteCostSource::CopilotCatalog,
        confidence: RouteCostConfidence::High,
        input: Some(micros(billing.default.input_price, billing.batch_size) as u64),
        output: Some(micros(billing.default.output_price, billing.batch_size) as u64),
        cache_read: Some(micros(billing.default.cache_price, billing.batch_size) as u64),
        note: Some(catalog_note()),
    }
}

/// Microdollars per million tokens for a price in credits per batch.
fn to_micros(credits: u64, batch_size: u64) -> (r: u64)
    requires
        batch_size > 0,
    ensures
        r == micros(credits, batch_size),
{
    let total: u128 = (credits as u128) * 10_000_000_000u128;
    let each: u128 = total / (batch_size as u128);
    assert(each as u64 == each % 0x1_0000_0000_0000_0000u128) by (bit_vector);
    #[verifier::truncate]
    let r: u64 = each as u64;
    r
}

/// The estimate for a model's billing data. There is none without billing data,
/// nor where the batch size is zero.
pub fn estimate_from_catalog(billing: Option<&CopilotCatalogBilling>) -> (r: Option<
    RouteCheapnessEstimate,
>)
    ensures
        r is Some <==> (billing matches Some(b) && b.batch_size != 0),
        r matches Some(estimate) ==> estimate@ == catalog_estimate(*billing->0),
{
    let billing = match billing {
        Some(billing) => billing,
        None => {
            return None;
        },
    };
    if billing.batch_size == 0 {
        return None;
    }
    let input: u64 = to_micros(billing.default.input_price, billing.batch_size);
    let output: u64 = to_micros(billing.default.output_price, billing.batch_size);
    let cache_read: u64 = to_micros(billing.default.cache_price, billing.batch_size);
    Some(
        RouteCheapnessEstimate::metered(
            RouteCostSource::CopilotCatalog,
            RouteCostConfidence::High,
            input,
            output,
            Some(cache_read),
            Some(owned("Copilot live catalog per-token pricing")),
        ),
    )
}

/// With the usual batch of a million tokens, a credit is ten thousand
/// microdollars per million tokens.
pub proof fn law_price_of_a_million_tokens(credits: u64)
    requires
        credits * 10_000 < 0x1_0000_0000_0000_0000,
    ensures
        micros(credits, 1_000_000) == credits * 10_000,
{
}

/// What is free in credits is free in microdollars, whatever the batch.
pub proof fn law_free_stays_free(batch_size: u64)
    requires
        batch_size > 0,
    ensures
        micros(0, batch_size) == 0,
{
    vstd::arithmetic::div_mod::lemma_div_basics(batch_size as int);
}

} // verus!
