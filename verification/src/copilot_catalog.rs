//! The Copilot model catalog: what `GET /models` returns and what follows from
//! it.
//!
//! Every reachable model, its limits, its capabilities and its prices come from
//! this response. They vary by account and by the application that a token was
//! minted for, so no static table stands in for it.

use crate::copilot_catalog_pricing::{CopilotCatalogBilling, CopilotTokenPricesTier};
use crate::keyed::{copy_texts, lists, text_views, TextMap};
use crate::text::{
    begins, concat, eq_ignore_ascii_case, owned, same, same_but_case, starts_with,
};
use vstd::prelude::*;

verus! {

/// The kind of a Copilot account.
#[derive(Clone, Copy, Debug, PartialEq, Eq, Structural)]
pub enum CopilotAccountType {
    Individual,
    Business,
    Enterprise,
    Unknown,
}

impl CopilotAccountType {
    /// The name of the kind.
    pub open spec fn name(self) -> Seq<char> {
        match self {
            CopilotAccountType::Individual => "individual"@,
            CopilotAccountType::Business => "business"@,
            CopilotAccountType::Enterprise => "enterprise"@,
            CopilotAccountType::Unknown => "unknown"@,
        }
    }

    /// The name of the kind, as a text.
    pub fn to_text(self) -> (r: String)
        ensures
            r@ == self.name(),
    {
        match self {
            CopilotAccountType::Individual => owned("individual"),
            CopilotAccountType::Business => owned("business"),
            CopilotAccountType::Enterprise => owned("enterprise"),
            CopilotAccountType::Unknown => owned("unknown"),
        }
    }
}

/// What is known of the user's Copilot subscription.
#[derive(Debug)]
pub struct CopilotSubscriptionInfo {
    pub account_type: CopilotAccountType,
    pub available_models: Vec<CopilotModelInfo>,
}

/// One entry of the catalog.
#[derive(Debug)]
pub struct CopilotModelInfo {
    pub id: String,
    pub name: String,
    pub vendor: String,
    pub version: String,
    pub model_picker_enabled: bool,
    pub capabilities: Option<CopilotModelCapabilities>,
    /// The wire protocols that this model serves. Empty for models that predate
    /// the field: these serve `/chat/completions` only.
    pub supported_endpoints: Vec<String>,
    pub policy: Option<CopilotModelPolicy>,
    /// Prices per token; absent for old versions of the API.
    pub billing: Option<CopilotModelBilling>,
}

/// The billing block of an entry.
#[derive(Debug)]
pub struct CopilotModelBilling {
    pub token_prices: Option<CopilotTokenPrices>,
}

/// Prices in AI credits per `batch_size` tokens.
#[derive(Debug)]
pub struct CopilotTokenPrices {
    pub batch_size: u64,
    pub default: Option<CopilotTokenPriceTier>,
}

/// The prices of one tier.
#[derive(Clone, Copy, Debug, PartialEq, Eq, Structural)]
pub struct CopilotTokenPriceTier {
    pub input_price: u64,
    pub output_price: u64,
    pub cache_price: u64,
}

/// Whether a model may be used. One whose state is `disabled` has to be switched
/// on in the account's settings before it answers.
#[derive(Debug)]
pub struct CopilotModelPolicy {
    pub state: String,
}

/// What a model can do.
#[derive(Debug)]
pub struct CopilotModelCapabilities {
    pub limits: Option<CopilotModelLimits>,
    pub supports: Option<CopilotModelSupports>,
}

/// Which features a model supports.
#[derive(Debug)]
pub struct CopilotModelSupports {
    pub tool_calls: Option<bool>,
    pub vision: Option<bool>,
    pub streaming: Option<bool>,
    pub structured_outputs: Option<bool>,
    pub parallel_tool_calls: Option<bool>,
    pub reasoning_effort: Vec<String>,
}

/// How many tokens a model takes and gives.
#[derive(Debug)]
pub struct CopilotModelLimits {
    pub max_context_window_tokens: Option<usize>,
    pub max_output_tokens: Option<usize>,
    pub max_prompt_tokens: Option<usize>,
    pub vision: Option<CopilotVisionLimits>,
}

/// Which images a model takes.
#[derive(Debug)]
pub struct CopilotVisionLimits {
    pub supported_media_types: Vec<String>,
}

/// The wire protocol that a model speaks.
#[derive(Clone, Copy, Debug, PartialEq, Eq, Structural)]
pub enum CopilotEndpoint {
    /// Anthropic's Messages API.
    Messages,
    /// OpenAI's Responses API.
    Responses,
    /// OpenAI's Chat Completions API.
    ChatCompletions,
}

/// The path of an endpoint.
pub open spec fn path_of(endpoint: CopilotEndpoint) -> Seq<char> {
    match endpoint {
        CopilotEndpoint::Messages => "/v1/messages"@,
        CopilotEndpoint::Responses => "/responses"@,
        CopilotEndpoint::ChatCompletions => "/chat/completions"@,
    }
}

impl CopilotEndpoint {
    /// The path that follows the base URL of the API.
    pub fn path(self) -> (r: &'static str)
        ensures
            r@ == path_of(self),
    {
        match self {
            CopilotEndpoint::Messages => "/v1/messages",
            CopilotEndpoint::Responses => "/responses",
            CopilotEndpoint::ChatCompletions => "/chat/completions",
        }
    }

    /// The endpoint's name, which is its path.
    pub fn as_str(self) -> (r: &'static str)
        ensures
            r@ == path_of(self),
    {
        self.path()
    }
}

/// The wire protocol for a model that advertises `endpoints`: Messages where it
/// is advertised, else Responses where that is, else Chat Completions. Where in
/// the list an endpoint stands says nothing.
pub open spec fn endpoint_among(endpoints: Seq<Seq<char>>) -> CopilotEndpoint {
    if endpoints.contains(path_of(CopilotEndpoint::Messages)) {
        CopilotEndpoint::Messages
    } else if endpoints.contains(path_of(CopilotEndpoint::Responses)) {
        CopilotEndpoint::Responses
    } else {
        CopilotEndpoint::ChatCompletions
    }
}

impl CopilotModelInfo {
    /// The limits that the entry states.
    pub open spec fn limits(self) -> Option<CopilotModelLimits> {
        match self.capabilities {
            Some(c) => c.limits,
            None => None,
        }
    }

    /// The features that the entry states.
    pub open spec fn supports(self) -> Option<CopilotModelSupports> {
        match self.capabilities {
            Some(c) => c.supports,
            None => None,
        }
    }

    /// The size of the context window; the largest prompt where only that is
    /// stated.
    pub open spec fn context_window(self) -> Option<usize> {
        match self.limits() {
            Some(l) => if l.max_context_window_tokens is Some {
                l.max_context_window_tokens
            } else {
                l.max_prompt_tokens
            },
            None => None,
        }
    }

    /// The largest output.
    pub open spec fn output_cap(self) -> Option<usize> {
        match self.limits() {
            Some(l) => l.max_output_tokens,
            None => None,
        }
    }

    /// The largest prompt.
    pub open spec fn prompt_cap(self) -> Option<usize> {
        match self.limits() {
            Some(l) => l.max_prompt_tokens,
            None => None,
        }
    }

    /// Whether the account's policy disables the model.
    pub open spec fn disabled(self) -> bool {
        self.policy matches Some(policy) && same_but_case(policy.state@, "disabled"@)
    }

    /// The reasoning efforts that the model takes, in the catalog's order.
    pub open spec fn efforts(self) -> Seq<Seq<char>> {
        match self.supports() {
            Some(s) => text_views(s.reasoning_effort@),
            None => seq![],
        }
    }

    /// Whether the model calls tools, where the entry says so.
    pub open spec fn calls_tools(self) -> Option<bool> {
        match self.supports() {
            Some(s) => s.tool_calls,
            None => None,
        }
    }

    /// Whether the model takes images: by its flag, or by an image type that it
    /// states.
    pub open spec fn takes_images(self) -> bool {
        ||| (self.supports() matches Some(s) && s.vision == Some(true))
        ||| (self.limits() matches Some(l) && l.vision matches Some(v) && exists|i: int|
            0 <= i < v.supported_media_types@.len() && begins(
                (#[trigger] v.supported_media_types@[i])@,
                "image/"@,
            ))
    }

    /// Whether the model can serve an agent's turn.
    pub open spec fn usable(self) -> bool {
        !self.disabled() && self.output_cap() is Some && self.prompt_cap() is Some
            && self.calls_tools() is Some
    }

    /// The prices that the entry states.
    pub open spec fn prices(self) -> Option<CopilotCatalogBilling> {
        match self.billing {
            Some(b) => match b.token_prices {
                Some(p) => match p.default {
                    Some(t) => Some(
                        CopilotCatalogBilling {
                            batch_size: p.batch_size,
                            default: CopilotTokenPricesTier {
                                input_price: t.input_price,
                                output_price: t.output_price,
                                cache_price: t.cache_price,
                            },
                        },
                    ),
                    None => None,
                },
                None => None,
            },
            None => None,
        }
    }

    /// The wire protocol to use for this model.
    pub fn endpoint(&self) -> (r: CopilotEndpoint)
        ensures
            r == endpoint_among(text_views(self.supported_endpoints@)),
    {
        if lists(&self.supported_endpoints, CopilotEndpoint::Messages.path()) {
            CopilotEndpoint::Messages
        } else if lists(&self.supported_endpoints, CopilotEndpoint::Responses.path()) {
            CopilotEndpoint::Responses
        } else {
            CopilotEndpoint::ChatCompletions
        }
    }

    /// The size of the context window, if any is advertised.
    pub fn max_context_window_tokens(&self) -> (r: Option<usize>)
        ensures
            r == self.context_window(),
    {
        match &self.capabilities {
            Some(c) => match &c.limits {
                Some(l) => match l.max_context_window_tokens {
                    Some(n) => Some(n),
                    None => l.max_prompt_tokens,
                },
                None => None,
            },
            None => None,
        }
    }

    /// The largest output, if any is advertised.
    pub fn max_output_tokens(&self) -> (r: Option<usize>)
        ensures
            r == self.output_cap(),
    {
        match &self.capabilities {
            Some(c) => match &c.limits {
                Some(l) => l.max_output_tokens,
                None => None,
            },
            None => None,
        }
    }

    /// Whether the account's policy disables the model.
    pub fn is_disabled_by_policy(&self) -> (r: bool)
        ensures
            r == self.disabled(),
    {
        match &self.policy {
            Some(policy) => eq_ignore_ascii_case(policy.state.as_str(), "disabled"),
            None => false,
        }
    }

    /// The largest prompt, if any is advertised.
    pub fn max_prompt_tokens(&self) -> (r: Option<usize>)
        ensures
            r == self.prompt_cap(),
    {
        match &self.capabilities {
            Some(c) => match &c.limits {
                Some(l) => l.max_prompt_tokens,
                None => None,
            },
            None => None,
        }
    }

    /// The reasoning efforts that the model takes, in the catalog's order.
    pub fn reasoning_efforts(&self) -> (r: Vec<String>)
        ensures
            text_views(r@) == self.efforts(),
    {
        let empty: Vec<String> = Vec::new();
        assert(text_views(empty@) =~= seq![]);
        match &self.capabilities {
            Some(c) => match &c.supports {
                Some(s) => copy_texts(&s.reasoning_effort),
                None => empty,
            },
            None => empty,
        }
    }

    /// Whether the model takes any reasoning effort.
    pub fn supports_reasoning_effort(&self) -> (r: bool)
        ensures
            r == (self.efforts().len() > 0),
    {
        self.reasoning_efforts().len() > 0
    }

    /// Whether the model calls tools, where the catalog says so.
    pub fn supports_tool_calls(&self) -> (r: Option<bool>)
        ensures
            r == self.calls_tools(),
    {
        match &self.capabilities {
            Some(c) => match &c.supports {
                Some(s) => s.tool_calls,
                None => None,
            },
            None => None,
        }
    }

    /// Whether the model takes images.
    pub fn supports_vision(&self) -> (r: bool)
        ensures
            r == self.takes_images(),
    {
        let c = match &self.capabilities {
            Some(c) => c,
            None => {
                return false;
            },
        };
        match &c.supports {
            Some(s) => match s.vision {
                Some(true) => {
                    return true;
                },
                _ => {},
            },
            None => {},
        }
        match &c.limits {
            Some(l) => match &l.vision {
                Some(v) => {
                    let mut i: usize = 0;
                    while i < v.supported_media_types.len()
                        invariant
                            i <= v.supported_media_types@.len(),
                            forall|k: int|
                                0 <= k < i ==> !begins(
                                    (#[trigger] v.supported_media_types@[k])@,
                                    "image/"@,
                                ),
                            self.limits() matches Some(l) && l.vision == Some(*v),
                        decreases v.supported_media_types@.len() - i,
                    {
                        if starts_with(v.supported_media_types[i].as_str(), "image/") {
                            proof {
                                let types = self.limits()->0.vision->0.supported_media_types@;
                                assert(begins(types[i as int]@, "image/"@));
                            }
                            return true;
                        }
                        i = i + 1;
                    }
                    false
                },
                None => false,
            },
            None => false,
        }
    }

    /// Whether the model can serve an agent's turn. The catalog also lists
    /// embedding models and the like, which state neither limits nor tools.
    pub fn is_usable_for_chat(&self) -> (r: bool)
        ensures
            r == self.usable(),
    {
        !self.is_disabled_by_policy() && self.max_output_tokens().is_some()
            && self.max_prompt_tokens().is_some() && self.supports_tool_calls().is_some()
    }

    /// The prices of this model, in the shape that pricing reads; nothing where
    /// the catalog states none.
    pub fn catalog_billing(&self) -> (r: Option<CopilotCatalogBilling>)
        ensures
            r == self.prices(),
    {
        match &self.billing {
            Some(b) => match &b.token_prices {
                Some(p) => match &p.default {
                    Some(t) => Some(
                        CopilotCatalogBilling {
                            batch_size: p.batch_size,
                            default: CopilotTokenPricesTier {
                                input_price: t.input_price,
                                output_price: t.output_price,
                                cache_price: t.cache_price,
                            },
                        },
                    ),
                    None => None,
                },
                None => None,
            },
            None => None,
        }
    }
}

/// The order in which a model advertises its endpoints does not decide which one
/// is used.
pub proof fn law_endpoint_ignores_order(a: Seq<Seq<char>>, b: Seq<Seq<char>>)
    requires
        forall|p: Seq<char>| #[trigger] a.contains(p) <==> b.contains(p),
    ensures
        endpoint_among(a) == endpoint_among(b),
{
}

/// A websocket endpoint does not influence which endpoint is used.
pub proof fn law_websocket_endpoints_do_not_count(endpoints: Seq<Seq<char>>, ws: Seq<char>)
    requires
        begins(ws, "ws:"@),
    ensures
        endpoint_among(endpoints.push(ws)) == endpoint_among(endpoints),
{
    reveal_strlit("ws:");
    reveal_strlit("/v1/messages");
    reveal_strlit("/responses");
    assert(ws.subrange(0, 3)[0] == ws[0]);
    assert forall|p: Seq<char>| p != ws implies #[trigger] endpoints.push(ws).contains(p)
        == endpoints.contains(p) by {
        if endpoints.contains(p) {
            let i = choose|i: int| 0 <= i < endpoints.len() && endpoints[i] == p;
            assert(endpoints.push(ws)[i] == p);
        }
        if endpoints.push(ws).contains(p) {
            let i = choose|i: int|
                0 <= i < endpoints.push(ws).len() && endpoints.push(ws)[i] == p;
            assert(endpoints[i] == p);
        }
    }
    assert("/v1/messages"@[0] != ws[0]);
    assert("/responses"@[0] != ws[0]);
}

/// The prices that the first `n` entries state, by model; of two entries with
/// one id the later one counts.
pub open spec fn prices_of(models: Seq<CopilotModelInfo>, n: int) -> Map<
    Seq<char>,
    CopilotCatalogBilling,
>
    decreases n,
{
    if n <= 0 {
        Map::empty()
    } else {
        match models[n - 1].prices() {
            Some(billing) => prices_of(models, n - 1).insert(models[n - 1].id@, billing),
            None => prices_of(models, n - 1),
        }
    }
}

/// The prices of the catalog that was fetched last, by model.
pub struct CatalogBilling {
    pub prices: TextMap<CopilotCatalogBilling>,
}

impl View for CatalogBilling {
    type V = Map<Seq<char>, CopilotCatalogBilling>;

    open spec fn view(&self) -> Map<Seq<char>, CopilotCatalogBilling> {
        self.prices@
    }
}

impl CatalogBilling {
    /// No prices.
    pub fn new() -> (r: CatalogBilling)
        ensures
            r@ == Map::<Seq<char>, CopilotCatalogBilling>::empty(),
    {
        CatalogBilling { prices: TextMap::new() }
    }
}

/// What is known of prices after a catalog has been fetched: its prices, or what
/// was known before where it states none.
pub open spec fn billing_after(
    known: Map<Seq<char>, CopilotCatalogBilling>,
    models: Seq<CopilotModelInfo>,
) -> Map<Seq<char>, CopilotCatalogBilling> {
    let fetched = prices_of(models, models.len() as int);
    if fetched == Map::<Seq<char>, CopilotCatalogBilling>::empty() {
        known
    } else {
        fetched
    }
}

/// Publishes the prices of a catalog that has just been fetched.
pub fn record_catalog_billing(billing: &mut CatalogBilling, models: &Vec<CopilotModelInfo>)
    ensures
        final(billing)@ == billing_after(old(billing)@, models@),
{
    let mut prices: TextMap<CopilotCatalogBilling> = TextMap::new();
    let mut i: usize = 0;
    while i < models.len()
        invariant
            i <= models@.len(),
            prices@ == prices_of(models@, i as int),
        decreases models@.len() - i,
    {
        match models[i].catalog_billing() {
            Some(price) => {
                prices.insert(models[i].id.clone(), price);
            },
            None => {},
        }
        i = i + 1;
    }
    if !prices.is_empty() {
        billing.prices = prices;
    }
}

/// The prices for `model`, where the catalog stated any.
pub fn catalog_billing_for(billing: &CatalogBilling, model: &str) -> (r: Option<
    CopilotCatalogBilling,
>)
    ensures
        r == (if billing@.contains_key(model@) {
            Some(billing@[model@])
        } else {
            None
        }),
{
    match billing.prices.get(model) {
        Some(price) => Some(*price),
        None => None,
    }
}

/// Forgets every price.
pub fn clear_catalog_billing(billing: &mut CatalogBilling)
    ensures
        final(billing)@ == Map::<Seq<char>, CopilotCatalogBilling>::empty(),
{
    billing.prices.clear();
}

/// A catalog that states no prices leaves the known prices as they are.
pub proof fn law_unpriced_catalog_keeps_prices(
    known: Map<Seq<char>, CopilotCatalogBilling>,
    models: Seq<CopilotModelInfo>,
)
    requires
        forall|i: int| 0 <= i < models.len() ==> (#[trigger] models[i]).prices() is None,
    ensures
        billing_after(known, models) == known,
{
    lemma_no_prices(models, models.len() as int);
}

proof fn lemma_no_prices(models: Seq<CopilotModelInfo>, n: int)
    requires
        0 <= n <= models.len(),
        forall|i: int| 0 <= i < models.len() ==> (#[trigger] models[i]).prices() is None,
    ensures
        prices_of(models, n) == Map::<Seq<char>, CopilotCatalogBilling>::empty(),
    decreases n,
{
    if n > 0 {
        lemma_no_prices(models, n - 1);
    }
}

/// The URL of the catalog.
pub fn models_url(base: &str) -> (r: String)
    ensures
        r@ == base@ + "/models"@,
{
    let mut r = owned(base);
    r.append("/models");
    r
}

/// The message for a catalog that could not be fetched; `status` is the status
/// line's code and reason.
pub fn models_failure(status: &str, body: &str) -> (r: String)
    ensures
        r@ == "Copilot models fetch failed (HTTP "@ + status@ + "): "@ + body@,
{
    let mut r = owned("Copilot models fetch failed (HTTP ");
    r.append(status);
    r.append("): ");
    r.append(body);
    r
}

/// The models to prefer as the default, best first. Only a ranking: none of them
/// is chosen unless the account offers it.
/// `family` is what the ids of Anthropic's models begin with.
pub open spec fn preferred_models(family: Seq<char>) -> Seq<Seq<char>> {
    seq![
        family + "-opus-4.6"@,
        family + "-sonnet-4.6"@,
        family + "-opus-4.5"@,
        family + "-sonnet-4.5"@,
        family + "-sonnet-4"@,
        "gpt-5.5"@,
    ]
}

/// Whether a model of that id is offered and not disabled.
pub open spec fn offers(models: Seq<CopilotModelInfo>, id: Seq<char>) -> bool {
    exists|i: int|
        0 <= i < models.len() && !(#[trigger] models[i]).disabled() && models[i].id@ == id
}

/// The best of the preferred models, from the `n`th on, that is offered.
pub open spec fn best_preferred(
    models: Seq<CopilotModelInfo>,
    family: Seq<char>,
    n: int,
) -> Option<Seq<char>>
    decreases preferred_models(family).len() - n,
{
    if n < 0 || n >= preferred_models(family).len() {
        None
    } else if offers(models, preferred_models(family)[n]) {
        Some(preferred_models(family)[n])
    } else {
        best_preferred(models, family, n + 1)
    }
}

/// The first model, from the `n`th on, that is not disabled and, where `picked`,
/// is offered for selection.
pub open spec fn first_enabled(models: Seq<CopilotModelInfo>, picked: bool, n: int) -> Option<int>
    decreases models.len() - n,
{
    if n < 0 || n >= models.len() {
        None
    } else if !models[n].disabled() && (picked ==> models[n].model_picker_enabled) {
        Some(n)
    } else {
        first_enabled(models, picked, n + 1)
    }
}

/// The model to name where no model is offered at all.
pub open spec fn fallback_id(family: Seq<char>) -> Seq<char> {
    family + "-sonnet-4"@
}

/// The default model for a catalog: the best preferred one that is offered, else
/// the first that can be picked, else the first that is not disabled.
pub open spec fn default_for(models: Seq<CopilotModelInfo>, family: Seq<char>) -> Seq<char> {
    match best_preferred(models, family, 0) {
        Some(id) => id,
        None => match first_enabled(models, true, 0) {
            Some(i) => models[i].id@,
            None => match first_enabled(models, false, 0) {
                Some(i) => models[i].id@,
                None => fallback_id(family),
            },
        },
    }
}

fn is_offered(models: &Vec<CopilotModelInfo>, id: &str) -> (r: bool)
    ensures
        r == offers(models@, id@),
{
    let mut i: usize = 0;
    while i < models.len()
        invariant
            i <= models@.len(),
            forall|k: int|
                0 <= k < i ==> (#[trigger] models@[k]).disabled() || models@[k].id@ != id@,
        decreases models@.len() - i,
    {
        if !models[i].is_disabled_by_policy() && same(models[i].id.as_str(), id) {
            return true;
        }
        i = i + 1;
    }
    false
}

fn find_enabled(models: &Vec<CopilotModelInfo>, picked: bool) -> (r: Option<usize>)
    ensures
        (match r {
            Some(i) => i < models@.len() && first_enabled(models@, picked, 0) == Some(i as int),
            None => first_enabled(models@, picked, 0) is None,
        }),
{
    let mut i: usize = 0;
    while i < models.len()
        invariant
            i <= models@.len(),
            first_enabled(models@, picked, 0) == first_enabled(models@, picked, i as int),
        decreases models@.len() - i,
    {
        if !models[i].is_disabled_by_policy() && (!picked || models[i].model_picker_enabled) {
            return Some(i);
        }
        i = i + 1;
    }
    None
}

/// The best of the preferred models, from the `n`th on, that is offered.
fn find_preferred(models: &Vec<CopilotModelInfo>, ranking: &Vec<String>, family: &str) -> (r: Option<
    String,
>)
    requires
        text_views(ranking@) == preferred_models(family@),
    ensures
        crate::message::text_option(r) == best_preferred(models@, family@, 0),
{
    let mut n: usize = 0;
    while n < ranking.len()
        invariant
            n <= ranking@.len(),
            text_views(ranking@) == preferred_models(family@),
            best_preferred(models@, family@, 0) == best_preferred(models@, family@, n as int),
        decreases ranking@.len() - n,
    {
        assert(text_views(ranking@)[n as int] == ranking@[n as int]@);
        if is_offered(models, ranking[n].as_str()) {
            return Some(ranking[n].clone());
        }
        n = n + 1;
    }
    None
}

/// Picks the default model, restricted to what the account can reach.
pub fn choose_default_model(available_models: &Vec<CopilotModelInfo>, family: &str) -> (r: String)
    ensures
        r@ == default_for(available_models@, family@),
{
    let ranking: Vec<String> = vec![
        concat(family, "-opus-4.6"),
        concat(family, "-sonnet-4.6"),
        concat(family, "-opus-4.5"),
        concat(family, "-sonnet-4.5"),
        concat(family, "-sonnet-4"),
        owned("gpt-5.5"),
    ];
    assert(text_views(ranking@) =~= preferred_models(family@));
    match find_preferred(available_models, &ranking, family) {
        Some(id) => {
            return id;
        },
        None => {},
    }
    match find_enabled(available_models, true) {
        Some(i) => available_models[i].id.clone(),
        None => match find_enabled(available_models, false) {
            Some(i) => available_models[i].id.clone(),
            None => concat(family, "-sonnet-4"),
        },
    }
}

proof fn lemma_first_enabled(models: Seq<CopilotModelInfo>, picked: bool, n: int)
    requires
        0 <= n,
    ensures
        first_enabled(models, picked, n) matches Some(i) ==> n <= i < models.len()
            && !models[i].disabled(),
        first_enabled(models, picked, n) is None ==> (forall|k: int|
            n <= k < models.len() ==> (#[trigger] models[k]).disabled() || (picked
                && !models[k].model_picker_enabled)),
    decreases models.len() - n,
{
    if n < models.len() {
        lemma_first_enabled(models, picked, n + 1);
    }
}

proof fn lemma_best_is_offered(models: Seq<CopilotModelInfo>, family: Seq<char>, n: int)
    requires
        0 <= n,
    ensures
        best_preferred(models, family, n) matches Some(id) ==> offers(models, id),
    decreases preferred_models(family).len() - n,
{
    if n < preferred_models(family).len() {
        lemma_best_is_offered(models, family, n + 1);
    }
}

/// The default model is one that the account offers and that its policy does not
/// disable, wherever there is such a model.
pub proof fn law_default_is_offered(models: Seq<CopilotModelInfo>, family: Seq<char>)
    requires
        exists|i: int| 0 <= i < models.len() && !(#[trigger] models[i]).disabled(),
    ensures
        offers(models, default_for(models, family)),
{
    lemma_best_is_offered(models, family, 0);
    lemma_first_enabled(models, true, 0);
    lemma_first_enabled(models, false, 0);
}

} // verus!
