//! How a route to a model is billed, and how its cost is known.

use crate::message::text_option;
use vstd::prelude::*;

verus! {

/// How a route is paid for.
#[derive(Clone, Copy, Debug, PartialEq, Eq, Structural)]
pub enum RouteBillingKind {
    Metered,
    Subscription,
    IncludedQuota,
    Unknown,
}

/// Where a route's cost comes from.
#[derive(Clone, Copy, Debug, PartialEq, Eq, Structural)]
pub enum RouteCostSource {
    PublicApiPricing,
    PublicPlanPricing,
    RuntimePlan,
    OpenRouterEndpoint,
    OpenRouterCatalog,
    /// The live pricing catalog of models.dev.
    ModelsDevCatalog,
    /// The live Copilot `/models` catalog.
    CopilotCatalog,
    Heuristic,
}

/// How far a route's cost can be relied on.
#[derive(Clone, Copy, Debug, PartialEq, Eq, Structural)]
pub enum RouteCostConfidence {
    Exact,
    High,
    Medium,
    Low,
    Unknown,
}

/// What a route costs, in microdollars per million tokens.
#[derive(Debug)]
pub struct RouteCheapnessEstimate {
    pub billing_kind: RouteBillingKind,
    pub source: RouteCostSource,
    pub confidence: RouteCostConfidence,
    pub input_price_per_mtok_micros: Option<u64>,
    pub output_price_per_mtok_micros: Option<u64>,
    pub cache_read_price_per_mtok_micros: Option<u64>,
    pub note: Option<String>,
}

/// The model of [`RouteCheapnessEstimate`].
pub struct EstimateView {
    pub billing_kind: RouteBillingKind,
    pub source: RouteCostSource,
    pub confidence: RouteCostConfidence,
    pub input: Option<u64>,
    pub output: Option<u64>,
    pub cache_read: Option<u64>,
    pub note: Option<Seq<char>>,
}

impl View for RouteCheapnessEstimate {
    type V = EstimateView;

    open spec fn view(&self) -> EstimateView {
        EstimateView {
            billing_kind: self.billing_kind,
            source: self.source,
            confidence: self.confidence,
            input: self.input_price_per_mtok_micros,
            output: self.output_price_per_mtok_micros,
            cache_read: self.cache_read_price_per_mtok_micros,
            note: text_option(self.note),
        }
    }
}

impl RouteCheapnessEstimate {
    /// The estimate of a route that is paid for by the token.
    pub fn metered(
        source: RouteCostSource,
        confidence: RouteCostConfidence,
        input: u64,
        output: u64,
        cache_read: Option<u64>,
        note: Option<String>,
    ) -> (r: RouteCheapnessEstimate)
        ensures
            r@ == (EstimateView {
                billing_kind: RouteBillingKind::Metered,
                source,
                confidence,
                input: Some(input),
                output: Some(output),
                cache_read,
                note: text_option(note),
            }),
    {
        RouteCheapnessEstimate {
            billing_kind: RouteBillingKind::Metered,
            source,
            confidence,
            input_price_per_mtok_micros: Some(input),
            output_price_per_mtok_micros: Some(output),
            cache_read_price_per_mtok_micros: cache_read,
            note,
        }
    }
}

} // verus!
