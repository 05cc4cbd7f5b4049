//! Reading what the API answers: the catalog and the seat.
//!
//! A field that may be missing has a default; a field of the wrong kind makes
//! the whole answer malformed. A record may also come as the list of its fields.

use crate::catalog_store::texts_in;
use crate::copilot_catalog::{
    CopilotModelBilling, CopilotModelCapabilities, CopilotModelInfo, CopilotModelLimits,
    CopilotModelPolicy, CopilotModelSupports, CopilotTokenPriceTier, CopilotTokenPrices,
    CopilotVisionLimits,
};
use crate::copilot_enterprise::{CopilotEndpoints, CopilotUserInfo};
use crate::json::{is_record, json_views, slot, string_in, Json, JsonView};
use crate::keyed::text_views;
use crate::message::text_option;
use crate::records::{
    field_views, no_fields, put_field, read_typed, record, typed, Shape, ShapeView,
};
use vstd::prelude::*;

verus! {

/// A text; empty where there is none. The outer `None`: malformed.
pub open spec fn text_at(v: JsonView, at: int, key: Seq<char>) -> Option<Seq<char>> {
    match slot(v, at, key) {
        None => Some(seq![]),
        Some(JsonView::Str(t)) => Some(t),
        Some(_) => None,
    }
}

/// A truth value; false where there is none.
pub open spec fn flag_at(v: JsonView, at: int, key: Seq<char>) -> Option<bool> {
    match slot(v, at, key) {
        None => Some(false),
        Some(JsonView::Bool(b)) => Some(b),
        Some(_) => None,
    }
}

/// A count; zero where there is none.
pub open spec fn count_at(v: JsonView, at: int, key: Seq<char>) -> Option<u64> {
    match slot(v, at, key) {
        None => Some(0),
        Some(JsonView::UInt(n)) => Some(n),
        Some(_) => None,
    }
}

/// A list of texts; empty where there is none.
pub open spec fn texts_at(v: JsonView, at: int, key: Seq<char>) -> Option<Seq<Seq<char>>> {
    match slot(v, at, key) {
        None => Some(seq![]),
        Some(value) => texts_in(Some(value)),
    }
}

/// A text that may be absent.
pub open spec fn maybe_text_at(v: JsonView, at: int, key: Seq<char>) -> Option<Option<Seq<char>>> {
    match slot(v, at, key) {
        None => Some(None),
        Some(JsonView::Null) => Some(None),
        Some(JsonView::Str(t)) => Some(Some(t)),
        Some(_) => None,
    }
}

/// A truth value that may be absent.
pub open spec fn maybe_flag_at(v: JsonView, at: int, key: Seq<char>) -> Option<Option<bool>> {
    match slot(v, at, key) {
        None => Some(None),
        Some(JsonView::Null) => Some(None),
        Some(JsonView::Bool(b)) => Some(Some(b)),
        Some(_) => None,
    }
}

/// A size that may be absent.
pub open spec fn maybe_size_at(v: JsonView, at: int, key: Seq<char>) -> Option<Option<usize>> {
    crate::catalog_store::size_in(slot(v, at, key))
}

/// A record of `n` fields that may be absent.
pub open spec fn maybe_record_at(v: JsonView, at: int, key: Seq<char>, n: int) -> Option<
    Option<JsonView>,
> {
    match slot(v, at, key) {
        None => Some(None),
        Some(JsonView::Null) => Some(None),
        Some(o) => if is_record(o, n) {
            Some(Some(o))
        } else {
            None
        },
    }
}

fn read_text(v: &Json, at: usize, key: &str) -> (r: Option<String>)
    ensures
        text_option(r) == text_at(v@, at as int, key@),
{
    match v.slot(at, key) {
        None => {
            let empty: String = String::new();
            assert(empty@ =~= seq![]);
            Some(empty)
        },
        Some(Json::Str(t)) => Some(t.clone()),
        Some(_) => None,
    }
}

fn read_flag(v: &Json, at: usize, key: &str) -> (r: Option<bool>)
    ensures
        r == flag_at(v@, at as int, key@),
{
    match v.slot(at, key) {
        None => Some(false),
        Some(Json::Bool(b)) => Some(*b),
        Some(_) => None,
    }
}

fn read_count(v: &Json, at: usize, key: &str) -> (r: Option<u64>)
    ensures
        r == count_at(v@, at as int, key@),
{
    match v.slot(at, key) {
        None => Some(0),
        Some(Json::UInt(n)) => Some(*n),
        Some(_) => None,
    }
}

fn read_texts(v: &Json, at: usize, key: &str) -> (r: Option<Vec<String>>)
    ensures
        (match r {
            Some(texts) => texts_at(v@, at as int, key@) == Some(text_views(texts@)),
            None => texts_at(v@, at as int, key@) is None,
        }),
{
    match v.slot(at, key) {
        None => {
            let empty: Vec<String> = Vec::new();
            assert(text_views(empty@) =~= seq![]);
            Some(empty)
        },
        Some(value) => crate::catalog_store::read_texts(Some(value)),
    }
}

fn read_maybe_text(v: &Json, at: usize, key: &str) -> (r: Option<Option<String>>)
    ensures
        (match r {
            Some(t) => maybe_text_at(v@, at as int, key@) == Some(text_option(t)),
            None => maybe_text_at(v@, at as int, key@) is None,
        }),
{
    match v.slot(at, key) {
        None => Some(None),
        Some(Json::Null) => Some(None),
        Some(Json::Str(t)) => Some(Some(t.clone())),
        Some(_) => None,
    }
}

fn read_maybe_flag(v: &Json, at: usize, key: &str) -> (r: Option<Option<bool>>)
    ensures
        r == maybe_flag_at(v@, at as int, key@),
{
    match v.slot(at, key) {
        None => Some(None),
        Some(Json::Null) => Some(None),
        Some(Json::Bool(b)) => Some(Some(*b)),
        Some(_) => None,
    }
}

fn read_maybe_size(v: &Json, at: usize, key: &str) -> (r: Option<Option<usize>>)
    ensures
        r == maybe_size_at(v@, at as int, key@),
{
    crate::catalog_store::read_size(v.slot(at, key))
}

fn read_maybe_record<'a>(v: &'a Json, at: usize, key: &str, n: usize) -> (r: Option<Option<&'a Json>>)
    ensures
        (match r {
            None => maybe_record_at(v@, at as int, key@, n as int) is None,
            Some(None) => maybe_record_at(v@, at as int, key@, n as int) == Some(None::<JsonView>),
            Some(Some(o)) => maybe_record_at(v@, at as int, key@, n as int) == Some(Some(o@)),
        }),
{
    match v.slot(at, key) {
        None => Some(None),
        Some(o) => match o {
            Json::Null => Some(None),
            _ => if o.is_record(n) {
                Some(Some(o))
            } else {
                None
            },
        },
    }
}

/// Whether `t` is the tier that `v` states.
pub open spec fn tier_read(v: JsonView, t: CopilotTokenPriceTier) -> bool {
    &&& count_at(v, 0, "input_price"@) == Some(t.input_price)
    &&& count_at(v, 1, "output_price"@) == Some(t.output_price)
    &&& count_at(v, 2, "cache_price"@) == Some(t.cache_price)
}

/// Whether `v` states a tier.
pub open spec fn tier_ok(v: JsonView) -> bool {
    count_at(v, 0, "input_price"@) is Some && count_at(v, 1, "output_price"@) is Some && count_at(
        v,
        2, "cache_price"@,
    ) is Some
}

fn read_tier(v: &Json) -> (r: Option<CopilotTokenPriceTier>)
    ensures
        r is Some <==> tier_ok(v@),
        r matches Some(t) ==> tier_read(v@, t),
{
    let input = read_count(v, 0, "input_price");
    let output = read_count(v, 1, "output_price");
    let cache = read_count(v, 2, "cache_price");
    match (input, output, cache) {
        (Some(input_price), Some(output_price), Some(cache_price)) => Some(
            CopilotTokenPriceTier { input_price, output_price, cache_price },
        ),
        _ => None,
    }
}

/// Whether `p` is what `v` states of prices.
pub open spec fn prices_read(v: JsonView, p: CopilotTokenPrices) -> bool {
    &&& count_at(v, 0, "batch_size"@) == Some(p.batch_size)
    &&& match p.default {
        Some(t) => maybe_record_at(v, 1, "default"@, 3) matches Some(Some(o)) && tier_read(o, t),
        None => maybe_record_at(v, 1, "default"@, 3) == Some(None::<JsonView>),
    }
}

/// Whether `v` states prices.
pub open spec fn prices_ok(v: JsonView) -> bool {
    &&& count_at(v, 0, "batch_size"@) is Some
    &&& match maybe_record_at(v, 1, "default"@, 3) {
        Some(Some(o)) => tier_ok(o),
        Some(None) => true,
        None => false,
    }
}

fn read_prices(v: &Json) -> (r: Option<CopilotTokenPrices>)
    ensures
        r is Some <==> prices_ok(v@),
        r matches Some(p) ==> prices_read(v@, p),
{
    let batch_size = match read_count(v, 0, "batch_size") {
        Some(n) => n,
        None => {
            return None;
        },
    };
    match read_maybe_record(v, 1, "default", 3) {
        Some(Some(o)) => match read_tier(o) {
            Some(t) => Some(CopilotTokenPrices { batch_size, default: Some(t) }),
            None => None,
        },
        Some(None) => Some(CopilotTokenPrices { batch_size, default: None }),
        None => None,
    }
}

/// Whether `b` is what `v` states of billing.
pub open spec fn billing_read(v: JsonView, b: CopilotModelBilling) -> bool {
    match b.token_prices {
        Some(p) => maybe_record_at(v, 0, "token_prices"@, 2) matches Some(Some(o)) && prices_read(o, p),
        None => maybe_record_at(v, 0, "token_prices"@, 2) == Some(None::<JsonView>),
    }
}

/// Whether `v` states billing.
pub open spec fn billing_ok(v: JsonView) -> bool {
    match maybe_record_at(v, 0, "token_prices"@, 2) {
        Some(Some(o)) => prices_ok(o),
        Some(None) => true,
        None => false,
    }
}

fn read_billing(v: &Json) -> (r: Option<CopilotModelBilling>)
    ensures
        r is Some <==> billing_ok(v@),
        r matches Some(b) ==> billing_read(v@, b),
{
    match read_maybe_record(v, 0, "token_prices", 2) {
        Some(Some(o)) => match read_prices(o) {
            Some(p) => Some(CopilotModelBilling { token_prices: Some(p) }),
            None => None,
        },
        Some(None) => Some(CopilotModelBilling { token_prices: None }),
        None => None,
    }
}

/// Whether `l` is what `v` states of limits.
pub open spec fn limits_read(v: JsonView, l: CopilotModelLimits) -> bool {
    &&& maybe_size_at(v, 0, "max_context_window_tokens"@) == Some(l.max_context_window_tokens)
    &&& maybe_size_at(v, 1, "max_output_tokens"@) == Some(l.max_output_tokens)
    &&& maybe_size_at(v, 2, "max_prompt_tokens"@) == Some(l.max_prompt_tokens)
    &&& match l.vision {
        Some(vision) => maybe_record_at(v, 3, "vision"@, 1) matches Some(Some(o)) && texts_at(
            o,
            0, "supported_media_types"@,
        ) == Some(text_views(vision.supported_media_types@)),
        None => maybe_record_at(v, 3, "vision"@, 1) == Some(None::<JsonView>),
    }
}

/// Whether `v` states limits.
pub open spec fn limits_ok(v: JsonView) -> bool {
    &&& maybe_size_at(v, 0, "max_context_window_tokens"@) is Some
    &&& maybe_size_at(v, 1, "max_output_tokens"@) is Some
    &&& maybe_size_at(v, 2, "max_prompt_tokens"@) is Some
    &&& match maybe_record_at(v, 3, "vision"@, 1) {
        Some(Some(o)) => texts_at(o, 0, "supported_media_types"@) is Some,
        Some(None) => true,
        None => false,
    }
}

fn read_limits(v: &Json) -> (r: Option<CopilotModelLimits>)
    ensures
        r is Some <==> limits_ok(v@),
        r matches Some(l) ==> limits_read(v@, l),
{
    let window = read_maybe_size(v, 0, "max_context_window_tokens");
    let output = read_maybe_size(v, 1, "max_output_tokens");
    let prompt = read_maybe_size(v, 2, "max_prompt_tokens");
    let vision: Option<Option<CopilotVisionLimits>> = match read_maybe_record(v, 3, "vision", 1) {
        Some(Some(o)) => match read_texts(o, 0, "supported_media_types") {
            Some(supported_media_types) => Some(
                Some(CopilotVisionLimits { supported_media_types }),
            ),
            None => None,
        },
        Some(None) => Some(None),
        None => None,
    };
    match (window, output, prompt, vision) {
        (
            Some(max_context_window_tokens),
            Some(max_output_tokens),
            Some(max_prompt_tokens),
            Some(vision),
        ) => Some(
            CopilotModelLimits {
                max_context_window_tokens,
                max_output_tokens,
                max_prompt_tokens,
                vision,
            },
        ),
        _ => None,
    }
}

/// Whether `s` is what `v` states of features.
pub open spec fn supports_read(v: JsonView, s: CopilotModelSupports) -> bool {
    &&& maybe_flag_at(v, 0, "tool_calls"@) == Some(s.tool_calls)
    &&& maybe_flag_at(v, 1, "vision"@) == Some(s.vision)
    &&& maybe_flag_at(v, 2, "streaming"@) == Some(s.streaming)
    &&& maybe_flag_at(v, 3, "structured_outputs"@) == Some(s.structured_outputs)
    &&& maybe_flag_at(v, 4, "parallel_tool_calls"@) == Some(s.parallel_tool_calls)
    &&& texts_at(v, 5, "reasoning_effort"@) == Some(text_views(s.reasoning_effort@))
}

/// Whether `v` states features.
pub open spec fn supports_ok(v: JsonView) -> bool {
    &&& maybe_flag_at(v, 0, "tool_calls"@) is Some
    &&& maybe_flag_at(v, 1, "vision"@) is Some
    &&& maybe_flag_at(v, 2, "streaming"@) is Some
    &&& maybe_flag_at(v, 3, "structured_outputs"@) is Some
    &&& maybe_flag_at(v, 4, "parallel_tool_calls"@) is Some
    &&& texts_at(v, 5, "reasoning_effort"@) is Some
}

fn read_supports(v: &Json) -> (r: Option<CopilotModelSupports>)
    ensures
        r is Some <==> supports_ok(v@),
        r matches Some(s) ==> supports_read(v@, s),
{
    let tools = read_maybe_flag(v, 0, "tool_calls");
    let vision = read_maybe_flag(v, 1, "vision");
    let streaming = read_maybe_flag(v, 2, "streaming");
    let structured = read_maybe_flag(v, 3, "structured_outputs");
    let parallel = read_maybe_flag(v, 4, "parallel_tool_calls");
    let efforts = read_texts(v, 5, "reasoning_effort");
    match (tools, vision, streaming, structured, parallel, efforts) {
        (
            Some(tool_calls),
            Some(vision),
            Some(streaming),
            Some(structured_outputs),
            Some(parallel_tool_calls),
            Some(reasoning_effort),
        ) => Some(
            CopilotModelSupports {
                tool_calls,
                vision,
                streaming,
                structured_outputs,
                parallel_tool_calls,
                reasoning_effort,
            },
        ),
        _ => None,
    }
}

/// Whether `c` is what `v` states of capabilities.
pub open spec fn capabilities_read(v: JsonView, c: CopilotModelCapabilities) -> bool {
    &&& match c.limits {
        Some(l) => maybe_record_at(v, 0, "limits"@, 4) matches Some(Some(o)) && limits_read(o, l),
        None => maybe_record_at(v, 0, "limits"@, 4) == Some(None::<JsonView>),
    }
    &&& match c.supports {
        Some(s) => maybe_record_at(v, 1, "supports"@, 6) matches Some(Some(o)) && supports_read(o, s),
        None => maybe_record_at(v, 1, "supports"@, 6) == Some(None::<JsonView>),
    }
}

/// Whether `v` states capabilities.
pub open spec fn capabilities_ok(v: JsonView) -> bool {
    &&& match maybe_record_at(v, 0, "limits"@, 4) {
        Some(Some(o)) => limits_ok(o),
        Some(None) => true,
        None => false,
    }
    &&& match maybe_record_at(v, 1, "supports"@, 6) {
        Some(Some(o)) => supports_ok(o),
        Some(None) => true,
        None => false,
    }
}

fn read_capabilities(v: &Json) -> (r: Option<CopilotModelCapabilities>)
    ensures
        r is Some <==> capabilities_ok(v@),
        r matches Some(c) ==> capabilities_read(v@, c),
{
    let limits: Option<Option<CopilotModelLimits>> = match read_maybe_record(v, 0, "limits", 4) {
        Some(Some(o)) => match read_limits(o) {
            Some(l) => Some(Some(l)),
            None => None,
        },
        Some(None) => Some(None),
        None => None,
    };
    let supports: Option<Option<CopilotModelSupports>> = match read_maybe_record(v, 1, "supports", 6) {
        Some(Some(o)) => match read_supports(o) {
            Some(s) => Some(Some(s)),
            None => None,
        },
        Some(None) => Some(None),
        None => None,
    };
    match (limits, supports) {
        (Some(limits), Some(supports)) => Some(CopilotModelCapabilities { limits, supports }),
        _ => None,
    }
}

/// Whether `info` is the entry that `v` states.
pub open spec fn model_read(v: JsonView, info: CopilotModelInfo) -> bool {
    &&& string_in(slot(v, 0, "id"@)) == Some(info.id@)
    &&& text_at(v, 1, "name"@) == Some(info.name@)
    &&& text_at(v, 2, "vendor"@) == Some(info.vendor@)
    &&& text_at(v, 3, "version"@) == Some(info.version@)
    &&& flag_at(v, 4, "model_picker_enabled"@) == Some(info.model_picker_enabled)
    &&& match info.capabilities {
        Some(c) => maybe_record_at(v, 5, "capabilities"@, 2) matches Some(Some(o))
            && capabilities_read(o, c),
        None => maybe_record_at(v, 5, "capabilities"@, 2) == Some(None::<JsonView>),
    }
    &&& texts_at(v, 6, "supported_endpoints"@) == Some(text_views(info.supported_endpoints@))
    &&& match info.policy {
        Some(p) => maybe_record_at(v, 7, "policy"@, 1) matches Some(Some(o)) && text_at(o, 0, "state"@)
            == Some(p.state@),
        None => maybe_record_at(v, 7, "policy"@, 1) == Some(None::<JsonView>),
    }
    &&& match info.billing {
        Some(b) => maybe_record_at(v, 8, "billing"@, 1) matches Some(Some(o)) && billing_read(o, b),
        None => maybe_record_at(v, 8, "billing"@, 1) == Some(None::<JsonView>),
    }
}

/// Whether `v` states an entry.
pub open spec fn model_ok(v: JsonView) -> bool {
    &&& is_record(v, 9)
    &&& string_in(slot(v, 0, "id"@)) is Some
    &&& text_at(v, 1, "name"@) is Some
    &&& text_at(v, 2, "vendor"@) is Some
    &&& text_at(v, 3, "version"@) is Some
    &&& flag_at(v, 4, "model_picker_enabled"@) is Some
    &&& match maybe_record_at(v, 5, "capabilities"@, 2) {
        Some(Some(o)) => capabilities_ok(o),
        Some(None) => true,
        None => false,
    }
    &&& texts_at(v, 6, "supported_endpoints"@) is Some
    &&& match maybe_record_at(v, 7, "policy"@, 1) {
        Some(Some(o)) => text_at(o, 0, "state"@) is Some,
        Some(None) => true,
        None => false,
    }
    &&& match maybe_record_at(v, 8, "billing"@, 1) {
        Some(Some(o)) => billing_ok(o),
        Some(None) => true,
        None => false,
    }
}

/// The entry that a value states, if it is well formed.
pub fn read_model(v: &Json) -> (r: Option<CopilotModelInfo>)
    ensures
        r is Some <==> model_ok(v@),
        r matches Some(info) ==> model_read(v@, info),
{
    if !v.is_record(9) {
        return None;
    }
    let id = match v.slot(0, "id") {
        Some(Json::Str(id)) => id.clone(),
        _ => {
            return None;
        },
    };
    let capabilities: Option<Option<CopilotModelCapabilities>> = match read_maybe_record(
        v,
        5, "capabilities", 2,
    ) {
        Some(Some(o)) => match read_capabilities(o) {
            Some(c) => Some(Some(c)),
            None => None,
        },
        Some(None) => Some(None),
        None => None,
    };
    let policy: Option<Option<CopilotModelPolicy>> = match read_maybe_record(v, 7, "policy", 1) {
        Some(Some(o)) => match read_text(o, 0, "state") {
            Some(state) => Some(Some(CopilotModelPolicy { state })),
            None => None,
        },
        Some(None) => Some(None),
        None => None,
    };
    let billing: Option<Option<CopilotModelBilling>> = match read_maybe_record(v, 8, "billing", 1) {
        Some(Some(o)) => match read_billing(o) {
            Some(b) => Some(Some(b)),
            None => None,
        },
        Some(None) => Some(None),
        None => None,
    };
    let name = read_text(v, 1, "name");
    let vendor = read_text(v, 2, "vendor");
    let version = read_text(v, 3, "version");
    let picked = read_flag(v, 4, "model_picker_enabled");
    let endpoints = read_texts(v, 6, "supported_endpoints");
    match (name, vendor, version, picked, endpoints) {
        (
            Some(name),
            Some(vendor),
            Some(version),
            Some(model_picker_enabled),
            Some(supported_endpoints),
        ) => match (capabilities, policy, billing) {
            (Some(capabilities), Some(policy), Some(billing)) => Some(
                CopilotModelInfo {
                    id,
                    name,
                    vendor,
                    version,
                    model_picker_enabled,
                    capabilities,
                    supported_endpoints,
                    policy,
                    billing,
                },
            ),
            _ => None,
        },
        _ => None,
    }
}

/// Whether every item states an entry.
pub open spec fn models_ok(items: Seq<JsonView>) -> bool {
    forall|i: int| 0 <= i < items.len() ==> model_ok(#[trigger] items[i])
}

/// The items of a catalog: none where the answer has no such field.
pub open spec fn catalog_items(v: JsonView) -> Option<Seq<JsonView>> {
    if !is_record(v, 1) {
        None
    } else {
        match slot(v, 0, "data"@) {
            None => Some(seq![]),
            Some(JsonView::Array(items)) => Some(items),
            Some(_) => None,
        }
    }
}

/// Whether `models` are the entries that `items` state, in order.
pub open spec fn models_read(items: Seq<JsonView>, models: Seq<CopilotModelInfo>) -> bool {
    &&& models.len() == items.len()
    &&& forall|i: int| 0 <= i < items.len() ==> model_read(#[trigger] items[i], models[i])
}

/// The catalog that an answer states, if it is well formed.
pub fn models_in(value: &Json) -> (r: Option<Vec<CopilotModelInfo>>)
    ensures
        r is Some <==> (catalog_items(value@) matches Some(items) && models_ok(items)),
        r matches Some(models) ==> models_read(catalog_items(value@)->0, models@),
{
    if !value.is_record(1) {
        return None;
    }
    let items = match value.slot(0, "data") {
        None => {
            return Some(Vec::new());
        },
        Some(data) => match data.as_array() {
            Some(items) => items,
            None => {
                return None;
            },
        },
    };
    let ghost views = json_views(items@);
    assert(catalog_items(value@) == Some(views));
    let mut models: Vec<CopilotModelInfo> = Vec::new();
    let mut i: usize = 0;
    while i < items.len()
        invariant
            i <= items@.len(),
            views == json_views(items@),
            catalog_items(value@) == Some(views),
            models@.len() == i,
            forall|k: int| 0 <= k < i ==> model_ok(#[trigger] views[k]),
            forall|k: int| 0 <= k < i ==> model_read(#[trigger] views[k], models@[k]),
        decreases items@.len() - i,
    {
        assert(views[i as int] == items@[i as int]@);
        match read_model(&items[i]) {
            Some(model) => {
                models.push(model);
            },
            None => {
                return None;
            },
        }
        i = i + 1;
    }
    Some(models)
}

/// The record of a tier.
pub open spec fn tier_shape() -> ShapeView {
    ShapeView::Record(
        seq![
            ("input_price"@, ShapeView::Value),
            ("output_price"@, ShapeView::Value),
            ("cache_price"@, ShapeView::Value),
        ],
    )
}

fn tier_record() -> (r: Shape)
    ensures
        r@ == tier_shape(),
{
    let mut fields = no_fields();
    put_field(&mut fields, "input_price", Shape::Value);
    put_field(&mut fields, "output_price", Shape::Value);
    put_field(&mut fields, "cache_price", Shape::Value);
    assert(field_views(fields@) =~= tier_shape()->Record_0);
    record(fields)
}

/// The record of prices.
pub open spec fn prices_shape() -> ShapeView {
    ShapeView::Record(
        seq![
            ("batch_size"@, ShapeView::Value),
            ("default"@, tier_shape()),
        ],
    )
}

fn prices_record() -> (r: Shape)
    ensures
        r@ == prices_shape(),
{
    let mut fields = no_fields();
    put_field(&mut fields, "batch_size", Shape::Value);
    put_field(&mut fields, "default", tier_record());
    assert(field_views(fields@) =~= prices_shape()->Record_0);
    record(fields)
}

/// The record of billing.
pub open spec fn billing_shape() -> ShapeView {
    ShapeView::Record(
        seq![
            ("token_prices"@, prices_shape()),
        ],
    )
}

fn billing_record() -> (r: Shape)
    ensures
        r@ == billing_shape(),
{
    let mut fields = no_fields();
    put_field(&mut fields, "token_prices", prices_record());
    assert(field_views(fields@) =~= billing_shape()->Record_0);
    record(fields)
}

/// The record of the limits of images.
pub open spec fn vision_shape() -> ShapeView {
    ShapeView::Record(
        seq![
            ("supported_media_types"@, ShapeView::Value),
        ],
    )
}

fn vision_record() -> (r: Shape)
    ensures
        r@ == vision_shape(),
{
    let mut fields = no_fields();
    put_field(&mut fields, "supported_media_types", Shape::Value);
    assert(field_views(fields@) =~= vision_shape()->Record_0);
    record(fields)
}

/// The record of limits.
pub open spec fn limits_shape() -> ShapeView {
    ShapeView::Record(
        seq![
            ("max_context_window_tokens"@, ShapeView::Value),
            ("max_output_tokens"@, ShapeView::Value),
            ("max_prompt_tokens"@, ShapeView::Value),
            ("vision"@, vision_shape()),
        ],
    )
}

fn limits_record() -> (r: Shape)
    ensures
        r@ == limits_shape(),
{
    let mut fields = no_fields();
    put_field(&mut fields, "max_context_window_tokens", Shape::Value);
    put_field(&mut fields, "max_output_tokens", Shape::Value);
    put_field(&mut fields, "max_prompt_tokens", Shape::Value);
    put_field(&mut fields, "vision", vision_record());
    assert(field_views(fields@) =~= limits_shape()->Record_0);
    record(fields)
}

/// The record of features.
pub open spec fn supports_shape() -> ShapeView {
    ShapeView::Record(
        seq![
            ("tool_calls"@, ShapeView::Value),
            ("vision"@, ShapeView::Value),
            ("streaming"@, ShapeView::Value),
            ("structured_outputs"@, ShapeView::Value),
            ("parallel_tool_calls"@, ShapeView::Value),
            ("reasoning_effort"@, ShapeView::Value),
        ],
    )
}

fn supports_record() -> (r: Shape)
    ensures
        r@ == supports_shape(),
{
    let mut fields = no_fields();
    put_field(&mut fields, "tool_calls", Shape::Value);
    put_field(&mut fields, "vision", Shape::Value);
    put_field(&mut fields, "streaming", Shape::Value);
    put_field(&mut fields, "structured_outputs", Shape::Value);
    put_field(&mut fields, "parallel_tool_calls", Shape::Value);
    put_field(&mut fields, "reasoning_effort", Shape::Value);
    assert(field_views(fields@) =~= supports_shape()->Record_0);
    record(fields)
}

/// The record of capabilities.
pub open spec fn capabilities_shape() -> ShapeView {
    ShapeView::Record(
        seq![
            ("limits"@, limits_shape()),
            ("supports"@, supports_shape()),
        ],
    )
}

fn capabilities_record() -> (r: Shape)
    ensures
        r@ == capabilities_shape(),
{
    let mut fields = no_fields();
    put_field(&mut fields, "limits", limits_record());
    put_field(&mut fields, "supports", supports_record());
    assert(field_views(fields@) =~= capabilities_shape()->Record_0);
    record(fields)
}

/// The record of a policy.
pub open spec fn policy_shape() -> ShapeView {
    ShapeView::Record(
        seq![
            ("state"@, ShapeView::Value),
        ],
    )
}

fn policy_record() -> (r: Shape)
    ensures
        r@ == policy_shape(),
{
    let mut fields = no_fields();
    put_field(&mut fields, "state", Shape::Value);
    assert(field_views(fields@) =~= policy_shape()->Record_0);
    record(fields)
}

/// The record of an entry of a catalog.
pub open spec fn model_shape() -> ShapeView {
    ShapeView::Record(
        seq![
            ("id"@, ShapeView::Value),
            ("name"@, ShapeView::Value),
            ("vendor"@, ShapeView::Value),
            ("version"@, ShapeView::Value),
            ("model_picker_enabled"@, ShapeView::Value),
            ("capabilities"@, capabilities_shape()),
            ("supported_endpoints"@, ShapeView::Value),
            ("policy"@, policy_shape()),
            ("billing"@, billing_shape()),
        ],
    )
}

fn model_record() -> (r: Shape)
    ensures
        r@ == model_shape(),
{
    let mut fields = no_fields();
    put_field(&mut fields, "id", Shape::Value);
    put_field(&mut fields, "name", Shape::Value);
    put_field(&mut fields, "vendor", Shape::Value);
    put_field(&mut fields, "version", Shape::Value);
    put_field(&mut fields, "model_picker_enabled", Shape::Value);
    put_field(&mut fields, "capabilities", capabilities_record());
    put_field(&mut fields, "supported_endpoints", Shape::Value);
    put_field(&mut fields, "policy", policy_record());
    put_field(&mut fields, "billing", billing_record());
    assert(field_views(fields@) =~= model_shape()->Record_0);
    record(fields)
}

/// The record of a catalog.
pub open spec fn catalog_shape() -> ShapeView {
    ShapeView::Record(
        seq![
            ("data"@, ShapeView::List(Box::new(model_shape()))),
        ],
    )
}

fn catalog_record() -> (r: Shape)
    ensures
        r@ == catalog_shape(),
{
    let mut fields = no_fields();
    put_field(&mut fields, "data", Shape::List(Box::new(model_record())));
    assert(field_views(fields@) =~= catalog_shape()->Record_0);
    record(fields)
}

/// The catalog in the text of an answer, if the text is well formed.
pub fn read_models(answer: &str) -> (r: Option<Vec<CopilotModelInfo>>)
    ensures
        r is Some <==> (typed(answer@, catalog_shape()) matches Some(v) && catalog_items(
            v,
        ) matches Some(items) && models_ok(items)),
        r matches Some(models) ==> models_read(
            catalog_items(typed(answer@, catalog_shape())->0)->0,
            models@,
        ),
{
    match read_typed(answer, &catalog_record()) {
        Some(value) => models_in(&value),
        None => None,
    }
}

/// Whether `info` is the seat that `v` states.
pub open spec fn seat_read(v: JsonView, info: CopilotUserInfo) -> bool {
    &&& text_at(v, 0, "login"@) == Some(info.login@)
    &&& text_at(v, 1, "copilot_plan"@) == Some(info.copilot_plan@)
    &&& text_at(v, 2, "access_type_sku"@) == Some(info.access_type_sku@)
    &&& flag_at(v, 3, "chat_enabled"@) == Some(info.chat_enabled)
    &&& texts_at(v, 4, "organization_login_list"@) == Some(
        text_views(info.organization_login_list@),
    )
    &&& match info.endpoints {
        Some(e) => maybe_record_at(v, 5, "endpoints"@, 1) matches Some(Some(o)) && maybe_text_at(
            o,
            0, "api"@,
        ) == Some(text_option(e.api)),
        None => maybe_record_at(v, 5, "endpoints"@, 1) == Some(None::<JsonView>),
    }
}

/// Whether `v` states a seat.
pub open spec fn seat_ok(v: JsonView) -> bool {
    &&& is_record(v, 6)
    &&& text_at(v, 0, "login"@) is Some
    &&& text_at(v, 1, "copilot_plan"@) is Some
    &&& text_at(v, 2, "access_type_sku"@) is Some
    &&& flag_at(v, 3, "chat_enabled"@) is Some
    &&& texts_at(v, 4, "organization_login_list"@) is Some
    &&& match maybe_record_at(v, 5, "endpoints"@, 1) {
        Some(Some(o)) => maybe_text_at(o, 0, "api"@) is Some,
        Some(None) => true,
        None => false,
    }
}

/// The seat that an answer states, if it is well formed.
pub fn seat_in(v: &Json) -> (r: Option<CopilotUserInfo>)
    ensures
        r is Some <==> seat_ok(v@),
        r matches Some(info) ==> seat_read(v@, info),
{
    if !v.is_record(6) {
        return None;
    }
    let endpoints: Option<Option<CopilotEndpoints>> = match read_maybe_record(v, 5, "endpoints", 1) {
        Some(Some(o)) => match read_maybe_text(o, 0, "api") {
            Some(api) => Some(Some(CopilotEndpoints { api })),
            None => None,
        },
        Some(None) => Some(None),
        None => None,
    };
    let login = read_text(v, 0, "login");
    let plan = read_text(v, 1, "copilot_plan");
    let sku = read_text(v, 2, "access_type_sku");
    let chat = read_flag(v, 3, "chat_enabled");
    let orgs = read_texts(v, 4, "organization_login_list");
    match (login, plan, sku, chat, orgs, endpoints) {
        (
            Some(login),
            Some(copilot_plan),
            Some(access_type_sku),
            Some(chat_enabled),
            Some(organization_login_list),
            Some(endpoints),
        ) => Some(
            CopilotUserInfo {
                login,
                copilot_plan,
                access_type_sku,
                chat_enabled,
                organization_login_list,
                endpoints,
            },
        ),
        _ => None,
    }
}

/// The record of the endpoints of a seat.
pub open spec fn endpoints_shape() -> ShapeView {
    ShapeView::Record(
        seq![
            ("api"@, ShapeView::Value),
        ],
    )
}

fn endpoints_record() -> (r: Shape)
    ensures
        r@ == endpoints_shape(),
{
    let mut fields = no_fields();
    put_field(&mut fields, "api", Shape::Value);
    assert(field_views(fields@) =~= endpoints_shape()->Record_0);
    record(fields)
}

/// The record of a seat.
pub open spec fn seat_shape() -> ShapeView {
    ShapeView::Record(
        seq![
            ("login"@, ShapeView::Value),
            ("copilot_plan"@, ShapeView::Value),
            ("access_type_sku"@, ShapeView::Value),
            ("chat_enabled"@, ShapeView::Value),
            ("organization_login_list"@, ShapeView::Value),
            ("endpoints"@, endpoints_shape()),
        ],
    )
}

fn seat_record() -> (r: Shape)
    ensures
        r@ == seat_shape(),
{
    let mut fields = no_fields();
    put_field(&mut fields, "login", Shape::Value);
    put_field(&mut fields, "copilot_plan", Shape::Value);
    put_field(&mut fields, "access_type_sku", Shape::Value);
    put_field(&mut fields, "chat_enabled", Shape::Value);
    put_field(&mut fields, "organization_login_list", Shape::Value);
    put_field(&mut fields, "endpoints", endpoints_record());
    assert(field_views(fields@) =~= seat_shape()->Record_0);
    record(fields)
}

/// The seat in the text of an answer, if the text is well formed.
pub fn read_seat(answer: &str) -> (r: Option<CopilotUserInfo>)
    ensures
        r is Some <==> (typed(answer@, seat_shape()) matches Some(v) && seat_ok(v)),
        r matches Some(info) ==> seat_read(typed(answer@, seat_shape())->0, info),
{
    match read_typed(answer, &seat_record()) {
        Some(v) => seat_in(&v),
        None => None,
    }
}

} // verus!
