//! What holds of every record that is read or filed: each thing that it says stands
//! under its own name.

use crate::catalog::SpecView;
use crate::catalog_store::{
    catalog_json, size_in, spec_entries, spec_json, texts_in, texts_of, usable_with, PersistedView,
};
use crate::copilot_catalog::{CopilotEndpoint, CopilotModelInfo};
use crate::copilot_enterprise::{cache_key, CopilotUserInfo};
use crate::json::{field, is_record, lemma_entry_found, slot, JsonView};
use crate::keyed::text_views;
use crate::wire::{
    billing_read, capabilities_read, catalog_items, limits_read, model_ok, model_read, models_read,
    prices_read, seat_ok, seat_read, supports_read, tier_read,
};
use vstd::prelude::*;

verus! {

/// A record is read by name; one that is written as a list is read by place.
pub proof fn law_records_are_read_by_name_or_place(v: JsonView, at: int, key: Seq<char>)
    ensures
        v is Object ==> slot(v, at, key) == field(v, key) && is_record(v, at),
        v matches JsonView::Array(items) ==> (0 <= at < items.len() ==> slot(v, at, key) == Some(
            items[at],
        )),
        v matches JsonView::Array(items) ==> (at >= items.len() ==> slot(v, at, key) is None),
        v matches JsonView::Array(items) ==> (is_record(v, at) <==> items.len() <= at),
        !(v is Object) && !(v is Array) ==> !is_record(v, at),
{
}

/// Whether a record says a text under a name; without the name the text is empty.
pub open spec fn tells_text(v: JsonView, at: int, key: Seq<char>, t: Seq<char>) -> bool {
    slot(v, at, key) == Some(JsonView::Str(t)) || (slot(v, at, key) is None && t.len() == 0)
}

/// Whether a record says yes or no under a name; without the name it says no.
pub open spec fn tells_flag(v: JsonView, at: int, key: Seq<char>, b: bool) -> bool {
    slot(v, at, key) == Some(JsonView::Bool(b)) || (slot(v, at, key) is None && !b)
}

/// Whether a record says yes or no under a name, or leaves it open.
pub open spec fn tells_maybe(v: JsonView, at: int, key: Seq<char>, b: Option<bool>) -> bool {
    match b {
        Some(b) => slot(v, at, key) == Some(JsonView::Bool(b)),
        None => slot(v, at, key) is None || slot(v, at, key) == Some(JsonView::Null),
    }
}

/// Whether a record says a count under a name; without the name it is zero.
pub open spec fn tells_count(v: JsonView, at: int, key: Seq<char>, n: u64) -> bool {
    slot(v, at, key) == Some(JsonView::UInt(n)) || (slot(v, at, key) is None && n == 0)
}

/// Whether a record says a size under a name, or leaves it open.
pub open spec fn tells_size(v: JsonView, at: int, key: Seq<char>, n: Option<usize>) -> bool {
    match n {
        Some(n) => slot(v, at, key) == Some(JsonView::UInt(n as u64)),
        None => slot(v, at, key) is None || slot(v, at, key) == Some(JsonView::Null),
    }
}

/// Whether a record lists texts under a name, all of them and in order; without the
/// name there are none.
pub open spec fn tells_list(v: JsonView, at: int, key: Seq<char>, list: Seq<Seq<char>>) -> bool {
    match slot(v, at, key) {
        Some(JsonView::Array(items)) => items.len() == list.len() && forall|i: int|
            0 <= i < list.len() ==> #[trigger] items[i] == JsonView::Str(list[i]),
        None => list.len() == 0,
        _ => false,
    }
}

/// The part of a record that stands under a name, where one does.
pub open spec fn part(v: JsonView, at: int, key: Seq<char>) -> Option<JsonView> {
    match slot(v, at, key) {
        Some(JsonView::Null) => None,
        part => part,
    }
}

proof fn lemma_texts_of(items: Seq<JsonView>, n: int)
    requires
        0 <= n <= items.len(),
    ensures
        texts_of(items, n) matches Some(texts) ==> texts.len() == n && forall|i: int|
            0 <= i < n ==> #[trigger] items[i] == JsonView::Str(texts[i]),
        texts_of(items, n) is None ==> exists|i: int|
            0 <= i < n && !((#[trigger] items[i]) is Str),
    decreases n,
{
    if n > 0 {
        lemma_texts_of(items, n - 1);
        if texts_of(items, n) is None {
            if texts_of(items, n - 1) is None {
                let i = choose|i: int| 0 <= i < n - 1 && !((#[trigger] items[i]) is Str);
                assert(!(items[i] is Str));
            } else {
                assert(!(items[n - 1] is Str));
            }
        }
    }
}

/// A list of texts is read whole and in order, and only where it holds texts alone.
pub proof fn law_lists_are_read_whole(items: Seq<JsonView>, texts: Seq<Seq<char>>)
    ensures
        texts_in(Some(JsonView::Array(items))) == Some(texts) <==> items.len() == texts.len() && (
        forall|i: int| 0 <= i < items.len() ==> #[trigger] items[i] == JsonView::Str(texts[i])),
        texts_in(None) is None,
{
    let n = items.len() as int;
    lemma_texts_of(items, n);
    if items.len() == texts.len() && (forall|i: int|
        0 <= i < items.len() ==> #[trigger] items[i] == JsonView::Str(texts[i])) {
        assert(texts_of(items, n) is Some) by {
            if texts_of(items, n) is None {
                let i = choose|i: int| 0 <= i < n && !((#[trigger] items[i]) is Str);
                assert(items[i] == JsonView::Str(texts[i]));
            }
        }
        let got = texts_of(items, n)->0;
        assert forall|i: int| 0 <= i < n implies got[i] == texts[i] by {
            assert(items[i] == JsonView::Str(texts[i]));
            assert(items[i] == JsonView::Str(got[i]));
        }
        assert(got =~= texts);
    }
}

/// A size is a whole number, and none where nothing stands.
pub proof fn law_sizes_are_whole_numbers(n: u64)
    ensures
        n <= usize::MAX ==> size_in(Some(JsonView::UInt(n))) == Some(Some(n as usize)),
        size_in(None) == Some(None::<usize>),
        size_in(Some(JsonView::Null)) == Some(None::<usize>),
        n > usize::MAX ==> size_in(Some(JsonView::UInt(n))) is None,
{
}

proof fn lemma_told_list(v: JsonView, at: int, key: Seq<char>, list: Seq<Seq<char>>)
    requires
        crate::wire::texts_at(v, at, key) == Some(list),
    ensures
        tells_list(v, at, key, list),
{
    match slot(v, at, key) {
        Some(JsonView::Array(items)) => {
            law_lists_are_read_whole(items, list);
        },
        _ => {},
    }
}

/// What is read of an entry of the catalog is what the entry says, each thing under
/// its own name.
pub proof fn law_entries_say_what_is_read(v: JsonView, info: CopilotModelInfo)
    requires
        model_read(v, info),
    ensures
        slot(v, 0, "id"@) == Some(JsonView::Str(info.id@)),
        tells_text(v, 1, "name"@, info.name@),
        tells_text(v, 2, "vendor"@, info.vendor@),
        tells_text(v, 3, "version"@, info.version@),
        tells_flag(v, 4, "model_picker_enabled"@, info.model_picker_enabled),
        part(v, 5, "capabilities"@) is Some <==> info.capabilities is Some,
        tells_list(v, 6, "supported_endpoints"@, text_views(info.supported_endpoints@)),
        part(v, 7, "policy"@) is Some <==> info.policy is Some,
        info.policy matches Some(policy) ==> tells_text(
            part(v, 7, "policy"@)->0,
            0,
            "state"@,
            policy.state@,
        ),
        part(v, 8, "billing"@) is Some <==> info.billing is Some,
        info.capabilities matches Some(c) ==> capabilities_read(part(v, 5, "capabilities"@)->0, c),
        info.billing matches Some(b) ==> billing_read(part(v, 8, "billing"@)->0, b),
{
    lemma_told_list(v, 6, "supported_endpoints"@, text_views(info.supported_endpoints@));
}

/// What is read of a model's limits is what its capabilities say.
pub proof fn law_limits_say_what_is_read(
    v: JsonView,
    c: crate::copilot_catalog::CopilotModelCapabilities,
)
    requires
        capabilities_read(v, c),
    ensures
        part(v, 0, "limits"@) is Some <==> c.limits is Some,
        c.limits matches Some(l) ==> {
            let o = part(v, 0, "limits"@)->0;
            &&& tells_size(o, 0, "max_context_window_tokens"@, l.max_context_window_tokens)
            &&& tells_size(o, 1, "max_output_tokens"@, l.max_output_tokens)
            &&& tells_size(o, 2, "max_prompt_tokens"@, l.max_prompt_tokens)
            &&& part(o, 3, "vision"@) is Some <==> l.vision is Some
            &&& l.vision matches Some(vision) ==> tells_list(
                part(o, 3, "vision"@)->0,
                0,
                "supported_media_types"@,
                text_views(vision.supported_media_types@),
            )
        },
        part(v, 1, "supports"@) is Some <==> c.supports is Some,
        c.supports matches Some(s) ==> {
            let o = part(v, 1, "supports"@)->0;
            &&& tells_maybe(o, 0, "tool_calls"@, s.tool_calls)
            &&& tells_maybe(o, 1, "vision"@, s.vision)
            &&& tells_maybe(o, 2, "streaming"@, s.streaming)
            &&& tells_maybe(o, 3, "structured_outputs"@, s.structured_outputs)
            &&& tells_maybe(o, 4, "parallel_tool_calls"@, s.parallel_tool_calls)
            &&& tells_list(o, 5, "reasoning_effort"@, text_views(s.reasoning_effort@))
        },
{
    if let Some(l) = c.limits {
        let o = part(v, 0, "limits"@)->0;
        assert(limits_read(o, l));
        if let Some(vision) = l.vision {
            lemma_told_list(
                part(o, 3, "vision"@)->0,
                0,
                "supported_media_types"@,
                text_views(vision.supported_media_types@),
            );
        }
    }
    if let Some(s) = c.supports {
        let o = part(v, 1, "supports"@)->0;
        assert(supports_read(o, s));
        lemma_told_list(o, 5, "reasoning_effort"@, text_views(s.reasoning_effort@));
    }
}

/// What is read of a model's prices is what its billing says.
pub proof fn law_prices_say_what_is_read(
    v: JsonView,
    b: crate::copilot_catalog::CopilotModelBilling,
)
    requires
        billing_read(v, b),
    ensures
        part(v, 0, "token_prices"@) is Some <==> b.token_prices is Some,
        b.token_prices matches Some(p) ==> {
            let o = part(v, 0, "token_prices"@)->0;
            &&& tells_count(o, 0, "batch_size"@, p.batch_size)
            &&& part(o, 1, "default"@) is Some <==> p.default is Some
            &&& p.default matches Some(t) ==> {
                let tier = part(o, 1, "default"@)->0;
                &&& tells_count(tier, 0, "input_price"@, t.input_price)
                &&& tells_count(tier, 1, "output_price"@, t.output_price)
                &&& tells_count(tier, 2, "cache_price"@, t.cache_price)
            }
        },
{
    if let Some(p) = b.token_prices {
        assert(prices_read(part(v, 0, "token_prices"@)->0, p));
        if let Some(t) = p.default {
            assert(tier_read(part(part(v, 0, "token_prices"@)->0, 1, "default"@)->0, t));
        }
    }
}

/// An entry with an id alone is read; one whose id is no text is not, nor one whose
/// name, vendor, version or picker flag is of another kind.
pub proof fn law_entries_of_another_kind_are_refused(v: JsonView)
    ensures
        model_ok(v) ==> (slot(v, 0, "id"@) matches Some(JsonView::Str(_))),
        model_ok(v) ==> slot(v, 1, "name"@) is None || slot(v, 1, "name"@)->0 is Str,
        model_ok(v) ==> slot(v, 2, "vendor"@) is None || slot(v, 2, "vendor"@)->0 is Str,
        model_ok(v) ==> slot(v, 3, "version"@) is None || slot(v, 3, "version"@)->0 is Str,
        model_ok(v) ==> slot(v, 4, "model_picker_enabled"@) is None || slot(
            v,
            4,
            "model_picker_enabled"@,
        )->0 is Bool,
        model_ok(v) ==> slot(v, 6, "supported_endpoints"@) is None || slot(
            v,
            6,
            "supported_endpoints"@,
        )->0 is Array,
        v is Object && (field(v, "id"@) matches Some(JsonView::Str(_))) && field(v, "name"@) is None
            && field(v, "vendor"@) is None && field(v, "version"@) is None && field(
            v,
            "model_picker_enabled"@,
        ) is None && field(v, "capabilities"@) is None && field(v, "supported_endpoints"@) is None
            && field(v, "policy"@) is None && field(v, "billing"@) is None ==> model_ok(v),
{
}

/// The entries of a catalog stand under "data": each is read, in order. A catalog
/// without the name is empty, and one that says anything else there is refused.
pub proof fn law_catalog_lists_its_entries(
    v: JsonView,
    items: Seq<JsonView>,
    models: Seq<CopilotModelInfo>,
    i: int,
)
    ensures
        v is Object && field(v, "data"@) == Some(JsonView::Array(items)) ==> catalog_items(v) == Some(
            items,
        ),
        v is Object && field(v, "data"@) is None ==> catalog_items(v) == Some(
            Seq::<JsonView>::empty(),
        ),
        v is Object && (field(v, "data"@) matches Some(data) && !(data is Array)) ==> catalog_items(
            v,
        ) is None,
        !(v is Object) && !(v is Array) ==> catalog_items(v) is None,
        models_read(items, models) ==> models.len() == items.len(),
        models_read(items, models) && 0 <= i < items.len() ==> slot(items[i], 0, "id"@) == Some(
            JsonView::Str(models[i].id@),
        ),
{
    if models_read(items, models) && 0 <= i < items.len() {
        assert(model_read(items[i], models[i]));
    }
}

/// What is read of a seat is what its record says, each thing under its own name.
pub proof fn law_seat_says_what_is_read(v: JsonView, info: CopilotUserInfo)
    requires
        seat_read(v, info),
    ensures
        tells_text(v, 0, "login"@, info.login@),
        tells_text(v, 1, "copilot_plan"@, info.copilot_plan@),
        tells_text(v, 2, "access_type_sku"@, info.access_type_sku@),
        tells_flag(v, 3, "chat_enabled"@, info.chat_enabled),
        tells_list(v, 4, "organization_login_list"@, text_views(info.organization_login_list@)),
        part(v, 5, "endpoints"@) is Some <==> info.endpoints is Some,
        info.endpoints matches Some(e) ==> (e.api matches Some(api) ==> slot(
            part(v, 5, "endpoints"@)->0,
            0,
            "api"@,
        ) == Some(JsonView::Str(api@))),
        info.endpoints matches Some(e) ==> (e.api is None ==> part(
            part(v, 5, "endpoints"@)->0,
            0,
            "api"@,
        ) is None),
{
    lemma_told_list(v, 4, "organization_login_list"@, text_views(info.organization_login_list@));
}

/// A seat of nothing is read; one whose texts or flag are of another kind is not.
pub proof fn law_seats_of_another_kind_are_refused(v: JsonView)
    ensures
        seat_ok(JsonView::Object(seq![])),
        seat_ok(v) ==> v is Object || v is Array,
        seat_ok(v) ==> slot(v, 0, "login"@) is None || slot(v, 0, "login"@)->0 is Str,
        seat_ok(v) ==> slot(v, 1, "copilot_plan"@) is None || slot(v, 1, "copilot_plan"@)->0 is Str,
        seat_ok(v) ==> slot(v, 3, "chat_enabled"@) is None || slot(v, 3, "chat_enabled"@)->0 is Bool,
{
}

proof fn lemma_filed_names()
    ensures
        "endpoint"@.len() == 8,
        "context_window"@.len() == 14,
        "max_output_tokens"@.len() == 17 && "max_output_tokens"@[0] == 'm',
        "reasoning_efforts"@.len() == 17 && "reasoning_efforts"@[0] == 'r',
        "supports_vision"@.len() == 15,
        "supports_tool_calls"@.len() == 19,
        "models"@.len() == 6,
        "specs"@.len() == 5,
        "credential_key"@.len() == 14,
        "fetched_at_rfc3339"@.len() == 18,
{
    reveal_strlit("endpoint");
    reveal_strlit("context_window");
    reveal_strlit("max_output_tokens");
    reveal_strlit("reasoning_efforts");
    reveal_strlit("supports_vision");
    reveal_strlit("supports_tool_calls");
    reveal_strlit("models");
    reveal_strlit("specs");
    reveal_strlit("credential_key");
    reveal_strlit("fetched_at_rfc3339");
}

/// What is known of a model is filed under its names: the protocol by its own name, a
/// size as a number or null, the efforts as a list and the features as flags.
pub proof fn law_specs_are_filed_under_their_names(spec: SpecView)
    ensures
        ({
            let v = spec_json(spec);
            &&& field(v, "endpoint"@) == Some(
                JsonView::Str(
                    match spec.endpoint {
                        CopilotEndpoint::Messages => "Messages"@,
                        CopilotEndpoint::Responses => "Responses"@,
                        CopilotEndpoint::ChatCompletions => "ChatCompletions"@,
                    },
                ),
            )
            &&& tells_size(v, 1, "context_window"@, spec.context_window)
            &&& tells_size(v, 2, "max_output_tokens"@, spec.max_output_tokens)
            &&& tells_list(v, 3, "reasoning_efforts"@, spec.reasoning_efforts)
            &&& field(v, "supports_vision"@) == Some(JsonView::Bool(spec.supports_vision))
            &&& field(v, "supports_tool_calls"@) == Some(JsonView::Bool(spec.supports_tool_calls))
        }),
{
    lemma_filed_names();
    let entries = spec_json(spec)->Object_0;
    assert(entries[0].0 == "endpoint"@ && entries[1].0 == "context_window"@ && entries[2].0
        == "max_output_tokens"@ && entries[3].0 == "reasoning_efforts"@ && entries[4].0
        == "supports_vision"@ && entries[5].0 == "supports_tool_calls"@);
    lemma_entry_found(entries, "endpoint"@, 0, 0);
    lemma_entry_found(entries, "context_window"@, 0, 1);
    lemma_entry_found(entries, "max_output_tokens"@, 0, 2);
    lemma_entry_found(entries, "reasoning_efforts"@, 0, 3);
    lemma_entry_found(entries, "supports_vision"@, 0, 4);
    lemma_entry_found(entries, "supports_tool_calls"@, 0, 5);
}

/// A catalog is filed under its names: all of the models in order, what is known of
/// each, whose it is and when it was fetched.
pub proof fn law_catalog_is_filed_under_its_names(
    catalog: PersistedView,
    list: Seq<(Seq<char>, SpecView)>,
    i: int,
)
    ensures
        ({
            let v = catalog_json(catalog, list);
            &&& tells_list(v, 0, "models"@, catalog.models)
            &&& field(v, "credential_key"@) == Some(JsonView::Str(catalog.credential_key))
            &&& field(v, "fetched_at_rfc3339"@) == Some(JsonView::Str(catalog.fetched_at))
            &&& field(v, "specs"@) matches Some(outer)
            &&& field(outer, "specs"@) matches Some(JsonView::Object(entries))
            &&& entries.len() == list.len()
            &&& 0 <= i < list.len() ==> entries[i].0 == list[i].0 && entries[i].1 == spec_json(
                list[i].1,
            )
        }),
{
    lemma_filed_names();
    let entries = catalog_json(catalog, list)->Object_0;
    assert(entries[0].0 == "models"@ && entries[1].0 == "specs"@ && entries[2].0
        == "credential_key"@ && entries[3].0 == "fetched_at_rfc3339"@);
    lemma_entry_found(entries, "models"@, 0, 0);
    lemma_entry_found(entries, "specs"@, 0, 1);
    lemma_entry_found(entries, "credential_key"@, 0, 2);
    lemma_entry_found(entries, "fetched_at_rfc3339"@, 0, 3);
    let inner = seq![("specs"@, JsonView::Object(spec_entries(list)))];
    assert(inner[0].0 == "specs"@);
    lemma_entry_found(inner, "specs"@, 0, 0);
}

/// A catalog on file is taken only with a model in it, and only by the credential
/// that it was fetched with.
pub proof fn law_filed_catalog_belongs_to_its_credential(catalog: PersistedView, token: Seq<char>)
    ensures
        catalog.models.len() == 0 ==> !usable_with(catalog, token),
        catalog.credential_key != cache_key(token) ==> !usable_with(catalog, token),
        catalog.models.len() > 0 && catalog.credential_key == cache_key(token) ==> usable_with(
            catalog,
            token,
        ),
{
}

} // verus!
