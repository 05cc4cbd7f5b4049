//! The catalog as it is kept on disk.
//!
//! The file holds what each model can do and not only the ids: with ids alone a
//! new start would offer the models but budget against a guess. An old file with
//! ids alone can still be read.

use crate::catalog::{CatalogSpecs, ModelSpec, SpecView};
use crate::copilot_catalog::CopilotEndpoint;
use crate::copilot_enterprise::{cache_key, token_cache_key};
use crate::json::{
    alike, array, distinct_keys, entry_views, field, is_record, json_text, json_views,
    lemma_entry_found, lemma_entry_from, lemma_field_present, lemma_object_view, no_entries, object,
    object1, plain, put, readable_depth, slot, string_in, to_text, Json,
    JsonView,
};
use crate::keyed::{copy_texts, lemma_entry_in_map, lemma_key_has_entry, text_views};
use crate::messages_request::json_option;
use crate::records::{
    field_views, fits, lemma_told_is_read, no_fields, place_from, put_field, read_typed, record,
    typed, Shape, ShapeView,
};
use crate::text::{owned, same};
use vstd::prelude::*;

verus! {

/// The catalog on disk.
#[derive(Debug)]
pub struct PersistedCopilotCatalog {
    pub models: Vec<String>,
    pub specs: CatalogSpecs,
    /// The key of the credential that fetched the catalog.
    pub credential_key: String,
    pub fetched_at_rfc3339: String,
}

/// The model of [`PersistedCopilotCatalog`].
pub struct PersistedView {
    pub models: Seq<Seq<char>>,
    pub specs: Map<Seq<char>, SpecView>,
    pub credential_key: Seq<char>,
    pub fetched_at: Seq<char>,
}

impl View for PersistedCopilotCatalog {
    type V = PersistedView;

    open spec fn view(&self) -> PersistedView {
        PersistedView {
            models: text_views(self.models@),
            specs: self.specs@,
            credential_key: self.credential_key@,
            fetched_at: self.fetched_at_rfc3339@,
        }
    }
}

/// The name under which an endpoint is filed.
pub open spec fn endpoint_name(endpoint: CopilotEndpoint) -> Seq<char> {
    match endpoint {
        CopilotEndpoint::Messages => "Messages"@,
        CopilotEndpoint::Responses => "Responses"@,
        CopilotEndpoint::ChatCompletions => "ChatCompletions"@,
    }
}

/// The value of a size that may be absent.
pub open spec fn size_json(size: Option<usize>) -> JsonView {
    match size {
        Some(n) => JsonView::UInt(n as u64),
        None => JsonView::Null,
    }
}

/// The value of a list of texts.
pub open spec fn texts_json(texts: Seq<Seq<char>>) -> JsonView {
    JsonView::Array(texts.map_values(|t: Seq<char>| JsonView::Str(t)))
}

/// The value of what is filed of a model.
pub open spec fn spec_json(spec: SpecView) -> JsonView {
    JsonView::Object(
        seq![
            ("endpoint"@, JsonView::Str(endpoint_name(spec.endpoint))),
            ("context_window"@, size_json(spec.context_window)),
            ("max_output_tokens"@, size_json(spec.max_output_tokens)),
            ("reasoning_efforts"@, texts_json(spec.reasoning_efforts)),
            ("supports_vision"@, JsonView::Bool(spec.supports_vision)),
            ("supports_tool_calls"@, JsonView::Bool(spec.supports_tool_calls)),
        ],
    )
}

/// Whether a list holds what a catalog says, each model once.
pub open spec fn lists_specs(
    list: Seq<(Seq<char>, SpecView)>,
    specs: Map<Seq<char>, SpecView>,
) -> bool {
    &&& forall|i: int|
        0 <= i < list.len() ==> specs.contains_key((#[trigger] list[i]).0) && specs[list[i].0]
            == list[i].1
    &&& forall|i: int, j: int|
        0 <= i < j < list.len() ==> (#[trigger] list[i]).0 != (#[trigger] list[j]).0
    &&& forall|k: Seq<char>| #[trigger]
        specs.contains_key(k) ==> exists|i: int|
            0 <= i < list.len() && (#[trigger] list[i]).0 == k
}

/// The entries of a list of specs.
pub open spec fn spec_entries(list: Seq<(Seq<char>, SpecView)>) -> Seq<(Seq<char>, JsonView)> {
    list.map_values(|e: (Seq<char>, SpecView)| (e.0, spec_json(e.1)))
}

/// The value of a catalog, with its specs in the order of `list`.
pub open spec fn catalog_json(
    catalog: PersistedView,
    list: Seq<(Seq<char>, SpecView)>,
) -> JsonView {
    JsonView::Object(
        seq![
            ("models"@, texts_json(catalog.models)),
            ("specs"@, JsonView::Object(seq![("specs"@, JsonView::Object(spec_entries(list)))])),
            ("credential_key"@, JsonView::Str(catalog.credential_key)),
            ("fetched_at_rfc3339"@, JsonView::Str(catalog.fetched_at)),
        ],
    )
}

/// The first `n` items as texts, if all of them are.
pub open spec fn texts_of(items: Seq<JsonView>, n: int) -> Option<Seq<Seq<char>>>
    decreases n,
{
    if n <= 0 {
        Some(seq![])
    } else {
        match (texts_of(items, n - 1), items[n - 1]) {
            (Some(texts), JsonView::Str(t)) => Some(texts.push(t)),
            _ => None,
        }
    }
}

/// A list of texts.
pub open spec fn texts_in(v: Option<JsonView>) -> Option<Seq<Seq<char>>> {
    match v {
        Some(JsonView::Array(items)) => texts_of(items, items.len() as int),
        _ => None,
    }
}

/// The name of an endpoint: a text, or the key of an object with nothing else and
/// no value.
pub open spec fn name_in(v: Option<JsonView>) -> Option<Seq<char>> {
    match v {
        Some(JsonView::Str(name)) => Some(name),
        Some(JsonView::Object(entries)) => if entries.len() == 1 && entries[0].1 is Null {
            Some(entries[0].0)
        } else {
            None
        },
        _ => None,
    }
}

/// An endpoint by its name.
pub open spec fn endpoint_named(v: Option<JsonView>) -> Option<CopilotEndpoint> {
    match name_in(v) {
        Some(name) => if name == "Messages"@ {
            Some(CopilotEndpoint::Messages)
        } else if name == "Responses"@ {
            Some(CopilotEndpoint::Responses)
        } else if name == "ChatCompletions"@ {
            Some(CopilotEndpoint::ChatCompletions)
        } else {
            None
        },
        None => None,
    }
}

/// A size that may be absent or null; the outer `None`: it is malformed.
pub open spec fn size_in(v: Option<JsonView>) -> Option<Option<usize>> {
    match v {
        None => Some(None),
        Some(JsonView::Null) => Some(None),
        Some(JsonView::UInt(n)) => if n <= usize::MAX {
            Some(Some(n as usize))
        } else {
            None
        },
        Some(_) => None,
    }
}

/// A truth value.
pub open spec fn bool_in(v: Option<JsonView>) -> Option<bool> {
    match v {
        Some(JsonView::Bool(b)) => Some(b),
        _ => None,
    }
}

/// What a value files of a model, if it is well formed.
pub open spec fn spec_in(v: JsonView) -> Option<SpecView> {
    match (
        is_record(v, 6),
        endpoint_named(slot(v, 0, "endpoint"@)),
        size_in(slot(v, 1, "context_window"@)),
        size_in(slot(v, 2, "max_output_tokens"@)),
        texts_in(slot(v, 3, "reasoning_efforts"@)),
        bool_in(slot(v, 4, "supports_vision"@)),
        bool_in(slot(v, 5, "supports_tool_calls"@)),
    ) {
        (
            true,
            Some(endpoint),
            Some(context_window),
            Some(max_output_tokens),
            Some(reasoning_efforts),
            Some(supports_vision),
            Some(supports_tool_calls),
        ) => Some(
            SpecView {
                endpoint,
                context_window,
                max_output_tokens,
                reasoning_efforts,
                supports_vision,
                supports_tool_calls,
            },
        ),
        _ => None,
    }
}

/// What the first `n` entries file, if all of them are well formed.
pub open spec fn specs_among(entries: Seq<(Seq<char>, JsonView)>, n: int) -> Option<
    Map<Seq<char>, SpecView>,
>
    decreases n,
{
    if n <= 0 {
        Some(Map::empty())
    } else {
        match (specs_among(entries, n - 1), spec_in(entries[n - 1].1)) {
            (Some(specs), Some(spec)) => Some(specs.insert(entries[n - 1].0, spec)),
            _ => None,
        }
    }
}

/// The specs of a catalog: none where there is no such field.
pub open spec fn specs_in(v: Option<JsonView>) -> Option<Map<Seq<char>, SpecView>> {
    match v {
        None => Some(Map::empty()),
        Some(outer) => match slot(outer, 0, "specs"@) {
            Some(JsonView::Object(entries)) => if is_record(outer, 1) {
                specs_among(entries, entries.len() as int)
            } else {
                None
            },
            _ => None,
        },
    }
}

/// A text that may be absent; the outer `None`: something else stands there.
pub open spec fn text_or_empty(v: Option<JsonView>) -> Option<Seq<char>> {
    match v {
        None => Some(seq![]),
        Some(JsonView::Str(t)) => Some(t),
        Some(_) => None,
    }
}

/// The catalog that a value files, if it is well formed.
pub open spec fn catalog_in(v: JsonView) -> Option<PersistedView> {
    match (
        is_record(v, 4),
        texts_in(slot(v, 0, "models"@)),
        specs_in(slot(v, 1, "specs"@)),
        text_or_empty(slot(v, 3, "credential_key"@)),
        string_in(slot(v, 2, "fetched_at_rfc3339"@)),
    ) {
        (true, Some(models), Some(specs), Some(credential_key), Some(fetched_at)) => Some(
            PersistedView { models, specs, credential_key, fetched_at },
        ),
        _ => None,
    }
}

proof fn lemma_texts_back(texts: Seq<Seq<char>>, n: int)
    requires
        0 <= n <= texts.len(),
    ensures
        texts_of(texts.map_values(|t: Seq<char>| JsonView::Str(t)), n) == Some(texts.take(n)),
    decreases n,
{
    if n > 0 {
        lemma_texts_back(texts, n - 1);
        assert(texts.take(n) =~= texts.take(n - 1).push(texts[n - 1]));
    } else {
        assert(texts.take(0) =~= seq![]);
    }
}

proof fn lemma_texts_in_back(texts: Seq<Seq<char>>)
    ensures
        texts_in(Some(texts_json(texts))) == Some(texts),
{
    lemma_texts_back(texts, texts.len() as int);
    assert(texts.take(texts.len() as int) =~= texts);
}

proof fn lemma_spec_back(spec: SpecView)
    ensures
        spec_in(spec_json(spec)) == Some(spec),
{
    reveal_strlit("endpoint");
    reveal_strlit("context_window");
    reveal_strlit("max_output_tokens");
    reveal_strlit("reasoning_efforts");
    reveal_strlit("supports_vision");
    reveal_strlit("supports_tool_calls");
    reveal_strlit("Messages");
    reveal_strlit("Responses");
    reveal_strlit("ChatCompletions");
    let entries = spec_json(spec)->Object_0;
    let keys = (
        "endpoint"@,
        "context_window"@,
        "max_output_tokens"@,
        "reasoning_efforts"@,
        "supports_vision"@,
        "supports_tool_calls"@,
    );
    assert(keys.0.len() == 8 && keys.1.len() == 14 && keys.2.len() == 17 && keys.3.len() == 17
        && keys.4.len() == 15 && keys.5.len() == 19);
    assert(keys.2[0] == 'm' && keys.3[0] == 'r');
    assert(entries[0].0 == keys.0 && entries[1].0 == keys.1 && entries[2].0 == keys.2
        && entries[3].0 == keys.3 && entries[4].0 == keys.4 && entries[5].0 == keys.5);
    lemma_entry_found(entries, keys.0, 0, 0);
    lemma_entry_found(entries, keys.1, 0, 1);
    lemma_entry_found(entries, keys.2, 0, 2);
    lemma_entry_found(entries, keys.3, 0, 3);
    lemma_entry_found(entries, keys.4, 0, 4);
    lemma_entry_found(entries, keys.5, 0, 5);
    lemma_texts_in_back(spec.reasoning_efforts);
    assert("Messages"@.len() == 8 && "Responses"@.len() == 9 && "ChatCompletions"@.len() == 15);
}

proof fn lemma_specs_back(
    list: Seq<(Seq<char>, SpecView)>,
    specs: Map<Seq<char>, SpecView>,
    n: int,
)
    requires
        lists_specs(list, specs),
        0 <= n <= list.len(),
    ensures
        specs_among(spec_entries(list), n) matches Some(m) && (forall|k: Seq<char>| #[trigger]
            m.contains_key(k) ==> specs.contains_key(k) && m[k] == specs[k]) && (forall|i: int|
            0 <= i < n ==> m.contains_key((#[trigger] list[i]).0)),
    decreases n,
{
    if n > 0 {
        lemma_specs_back(list, specs, n - 1);
        lemma_spec_back(list[n - 1].1);
        let before = specs_among(spec_entries(list), n - 1)->0;
        let m = before.insert(list[n - 1].0, list[n - 1].1);
        assert(specs_among(spec_entries(list), n) == Some(m));
        assert forall|i: int| 0 <= i < n implies m.contains_key((#[trigger] list[i]).0) by {
            if i < n - 1 {
                assert(before.contains_key(list[i].0));
            }
        }
    }
}

/// Reading what was written of a catalog gives the catalog back, in whatever
/// order its specs were written.
pub proof fn law_catalog_round_trips(catalog: PersistedView, list: Seq<(Seq<char>, SpecView)>)
    requires
        lists_specs(list, catalog.specs),
    ensures
        catalog_in(catalog_json(catalog, list)) == Some(catalog),
{
    reveal_strlit("models");
    reveal_strlit("specs");
    reveal_strlit("credential_key");
    reveal_strlit("fetched_at_rfc3339");
    let v = catalog_json(catalog, list);
    let entries = v->Object_0;
    assert("models"@.len() == 6 && "specs"@.len() == 5 && "credential_key"@.len() == 14
        && "fetched_at_rfc3339"@.len() == 18);
    assert(entries[0].0 == "models"@ && entries[1].0 == "specs"@ && entries[2].0
        == "credential_key"@ && entries[3].0 == "fetched_at_rfc3339"@);
    lemma_entry_found(entries, "models"@, 0, 0);
    lemma_entry_found(entries, "specs"@, 0, 1);
    lemma_entry_found(entries, "credential_key"@, 0, 2);
    lemma_entry_found(entries, "fetched_at_rfc3339"@, 0, 3);
    lemma_texts_in_back(catalog.models);
    let inner = seq![("specs"@, JsonView::Object(spec_entries(list)))];
    lemma_entry_found(inner, "specs"@, 0, 0);
    lemma_specs_back(list, catalog.specs, list.len() as int);
    let m = specs_among(spec_entries(list), list.len() as int)->0;
    assert forall|k: Seq<char>| #[trigger] catalog.specs.contains_key(k) implies m.contains_key(
        k,
    ) by {
        let i = choose|i: int| 0 <= i < list.len() && (#[trigger] list[i]).0 == k;
        assert(m.contains_key(list[i].0));
    }
    assert(m =~= catalog.specs);
}

proof fn lemma_plain_texts(texts: Seq<Seq<char>>, depth: nat)
    requires
        depth > 0,
    ensures
        plain(texts_json(texts), depth),
{
    let items = texts.map_values(|t: Seq<char>| JsonView::Str(t));
    assert forall|i: int| 0 <= i < items.len() implies plain(
        #[trigger] items[i],
        (depth - 1) as nat,
    ) by {
        assert(items[i] == JsonView::Str(texts[i]));
    }
}

proof fn lemma_plain_spec(spec: SpecView, depth: nat)
    requires
        depth > 1,
    ensures
        plain(spec_json(spec), depth),
{
    reveal_strlit("endpoint");
    reveal_strlit("context_window");
    reveal_strlit("max_output_tokens");
    reveal_strlit("reasoning_efforts");
    reveal_strlit("supports_vision");
    reveal_strlit("supports_tool_calls");
    assert("endpoint"@.len() == 8 && "context_window"@.len() == 14 && "max_output_tokens"@.len()
        == 17 && "reasoning_efforts"@.len() == 17 && "supports_vision"@.len() == 15
        && "supports_tool_calls"@.len() == 19);
    assert("max_output_tokens"@[0] == 'm' && "reasoning_efforts"@[0] == 'r');
    let entries = spec_json(spec)->Object_0;
    lemma_plain_texts(spec.reasoning_efforts, (depth - 1) as nat);
    assert(distinct_keys(entries));
    assert forall|i: int| 0 <= i < entries.len() implies plain(
        (#[trigger] entries[i]).1,
        (depth - 1) as nat,
    ) by {
        assert(i == 0 || i == 1 || i == 2 || i == 3 || i == 4 || i == 5);
    }
}

proof fn lemma_catalog_plain(catalog: PersistedView, list: Seq<(Seq<char>, SpecView)>)
    requires
        lists_specs(list, catalog.specs),
    ensures
        plain(catalog_json(catalog, list), readable_depth()),
{
    reveal_strlit("models");
    reveal_strlit("specs");
    reveal_strlit("credential_key");
    reveal_strlit("fetched_at_rfc3339");
    assert("models"@.len() == 6 && "specs"@.len() == 5 && "credential_key"@.len() == 14
        && "fetched_at_rfc3339"@.len() == 18);
    lemma_plain_texts(catalog.models, 99);
    let specs = spec_entries(list);
    assert forall|i: int| 0 <= i < specs.len() implies plain((#[trigger] specs[i]).1, 97) by {
        lemma_plain_spec(list[i].1, 97);
    }
    assert(distinct_keys(specs)) by {
        assert forall|i: int, j: int| 0 <= i < j < specs.len() implies (#[trigger] specs[i]).0 != (
        #[trigger] specs[j]).0 by {
            assert(list[i].0 != list[j].0);
        }
    }
    assert(plain(JsonView::Object(specs), 98));
    let inner = seq![("specs"@, JsonView::Object(specs))];
    assert(plain(JsonView::Object(inner), 99)) by {
        assert forall|i: int| 0 <= i < inner.len() implies plain((#[trigger] inner[i]).1, 98) by {
            assert(i == 0);
        }
    }
    let entries = catalog_json(catalog, list)->Object_0;
    assert(distinct_keys(entries));
    assert forall|i: int| 0 <= i < entries.len() implies plain((#[trigger] entries[i]).1, 99) by {
        assert(i == 0 || i == 1 || i == 2 || i == 3);
    }
}

/// Whether two values that may be absent are alike.
spec fn alike_options(a: Option<JsonView>, b: Option<JsonView>, depth: nat) -> bool {
    match (a, b) {
        (Some(v), Some(w)) => alike(v, w, depth),
        (None, None) => true,
        _ => false,
    }
}

proof fn lemma_fields_alike(a: JsonView, b: JsonView, depth: nat, key: Seq<char>)
    requires
        alike(a, b, depth),
        depth > 0,
    ensures
        alike_options(field(a, key), field(b, key), (depth - 1) as nat),
{
    if a is Object && b is Object {
        assert(field(a, key) == field(a, key));
    }
}

proof fn lemma_slots_alike(a: JsonView, b: JsonView, depth: nat, at: int, key: Seq<char>)
    requires
        alike(a, b, depth),
        depth > 0,
    ensures
        alike_options(slot(a, at, key), slot(b, at, key), (depth - 1) as nat),
        forall|n: int| #[trigger] is_record(a, n) == is_record(b, n),
{
    match (a, b) {
        (JsonView::Array(x), JsonView::Array(y)) => {
            if 0 <= at < x.len() {
                assert(alike(x[at], y[at], (depth - 1) as nat));
            }
        },
        _ => {
            lemma_fields_alike(a, b, depth, key);
        },
    }
}

proof fn lemma_texts_alike(a: Option<JsonView>, b: Option<JsonView>, depth: nat)
    requires
        alike_options(a, b, depth),
    ensures
        texts_in(a) == texts_in(b),
{
    match (a, b) {
        (Some(JsonView::Array(x)), Some(JsonView::Array(y))) => {
            lemma_items_alike(x, y, (depth - 1) as nat, x.len() as int);
        },
        _ => {},
    }
}

proof fn lemma_items_alike(x: Seq<JsonView>, y: Seq<JsonView>, depth: nat, n: int)
    requires
        x.len() == y.len(),
        0 <= n <= x.len(),
        forall|i: int| 0 <= i < x.len() ==> alike(#[trigger] x[i], y[i], depth),
    ensures
        texts_of(x, n) == texts_of(y, n),
    decreases n,
{
    if n > 0 {
        lemma_items_alike(x, y, depth, n - 1);
        assert(alike(x[n - 1], y[n - 1], depth));
    }
}

proof fn lemma_names_alike(a: Option<JsonView>, b: Option<JsonView>, depth: nat)
    requires
        alike_options(a, b, depth),
    ensures
        name_in(a) == name_in(b),
{
    match (a, b) {
        (Some(v), Some(w)) => match (v, w) {
            (JsonView::Object(x), JsonView::Object(y)) => {
                if x.len() == 1 {
                    lemma_one_entry_alike(x, y, depth);
                }
                if y.len() == 1 {
                    lemma_one_entry_alike_back(x, y, depth);
                }
            },
            _ => {},
        },
        _ => {},
    }
}

proof fn lemma_one_entry_alike(
    x: Seq<(Seq<char>, JsonView)>,
    y: Seq<(Seq<char>, JsonView)>,
    depth: nat,
)
    requires
        alike(JsonView::Object(x), JsonView::Object(y), depth),
        x.len() == 1,
    ensures
        y.len() == 1,
        y[0].0 == x[0].0,
        alike(x[0].1, y[0].1, (depth - 1) as nat),
{
    let (a, b) = (JsonView::Object(x), JsonView::Object(y));
    lemma_entry_found(x, x[0].0, 0, 0);
    lemma_fields_alike(a, b, depth, x[0].0);
    lemma_entry_from(y, x[0].0, 0);
    assert forall|j: int| 0 <= j < y.len() implies (#[trigger] y[j]).0 == x[0].0 by {
        lemma_entry_found(y, y[j].0, 0, j);
        lemma_fields_alike(a, b, depth, y[j].0);
        lemma_entry_from(x, y[j].0, 0);
    }
    if y.len() > 1 {
        assert(y[0].0 != y[1].0);
    }
}

proof fn lemma_one_entry_alike_back(
    x: Seq<(Seq<char>, JsonView)>,
    y: Seq<(Seq<char>, JsonView)>,
    depth: nat,
)
    requires
        alike(JsonView::Object(x), JsonView::Object(y), depth),
        y.len() == 1,
    ensures
        x.len() == 1,
{
    let (a, b) = (JsonView::Object(x), JsonView::Object(y));
    lemma_entry_found(y, y[0].0, 0, 0);
    lemma_fields_alike(a, b, depth, y[0].0);
    lemma_entry_from(x, y[0].0, 0);
    assert forall|i: int| 0 <= i < x.len() implies (#[trigger] x[i]).0 == y[0].0 by {
        lemma_entry_found(x, x[i].0, 0, i);
        lemma_fields_alike(a, b, depth, x[i].0);
        lemma_entry_from(y, x[i].0, 0);
    }
    if x.len() > 1 {
        assert(x[0].0 != x[1].0);
    }
}

proof fn lemma_spec_alike(a: JsonView, b: JsonView, depth: nat)
    requires
        alike(a, b, depth),
        depth > 0,
    ensures
        spec_in(a) == spec_in(b),
{
    let below = (depth - 1) as nat;
    lemma_slots_alike(a, b, depth, 0, "endpoint"@);
    lemma_slots_alike(a, b, depth, 1, "context_window"@);
    lemma_slots_alike(a, b, depth, 2, "max_output_tokens"@);
    lemma_slots_alike(a, b, depth, 3, "reasoning_efforts"@);
    lemma_slots_alike(a, b, depth, 4, "supports_vision"@);
    lemma_slots_alike(a, b, depth, 5, "supports_tool_calls"@);
    lemma_names_alike(slot(a, 0, "endpoint"@), slot(b, 0, "endpoint"@), below);
    lemma_texts_alike(
        slot(a, 3, "reasoning_efforts"@),
        slot(b, 3, "reasoning_efforts"@),
        below,
    );
}

/// What entries with keys of their own file: every entry must be well formed, and
/// its spec stands under its key.
proof fn lemma_specs_of_entries(entries: Seq<(Seq<char>, JsonView)>, n: int)
    requires
        distinct_keys(entries),
        0 <= n <= entries.len(),
    ensures
        specs_among(entries, n) is Some <==> (forall|i: int|
            0 <= i < n ==> spec_in((#[trigger] entries[i]).1) is Some),
        specs_among(entries, n) matches Some(m) ==> {
            &&& forall|k: Seq<char>| #[trigger]
                m.contains_key(k) ==> exists|i: int| 0 <= i < n && (#[trigger] entries[i]).0 == k
            &&& forall|i: int|
                0 <= i < n ==> m.contains_key((#[trigger] entries[i]).0) && m[entries[i].0]
                    == spec_in(entries[i].1)->0
        },
    decreases n,
{
    if n > 0 {
        lemma_specs_of_entries(entries, n - 1);
        match specs_among(entries, n - 1) {
            Some(before) => {
                if spec_in(entries[n - 1].1) is Some {
                    let m = before.insert(entries[n - 1].0, spec_in(entries[n - 1].1)->0);
                    assert(specs_among(entries, n) == Some(m));
                    assert forall|i: int| 0 <= i < n implies m.contains_key(
                        (#[trigger] entries[i]).0,
                    ) && m[entries[i].0] == spec_in(entries[i].1)->0 by {
                        if i < n - 1 {
                            assert(entries[i].0 != entries[n - 1].0);
                        }
                    }
                    assert forall|k: Seq<char>| #[trigger] m.contains_key(k) implies exists|i: int|
                        0 <= i < n && (#[trigger] entries[i]).0 == k by {
                        if k == entries[n - 1].0 {
                            assert(entries[n - 1].0 == k);
                        } else {
                            assert(before.contains_key(k));
                            let i = choose|i: int|
                                0 <= i < n - 1 && (#[trigger] entries[i]).0 == k;
                            assert(entries[i].0 == k);
                        }
                    }
                }
            },
            None => {
                let i = choose|i: int|
                    0 <= i < n - 1 && !(spec_in((#[trigger] entries[i]).1) is Some);
                assert(!(spec_in(entries[i].1) is Some));
            },
        }
    }
}

/// An entry of one of two objects that are alike has its counterpart in the other.
proof fn lemma_counterpart(
    x: Seq<(Seq<char>, JsonView)>,
    y: Seq<(Seq<char>, JsonView)>,
    depth: nat,
    i: int,
) -> (j: int)
    requires
        alike(JsonView::Object(x), JsonView::Object(y), depth),
        depth > 1,
        0 <= i < x.len(),
    ensures
        0 <= j < y.len(),
        y[j].0 == x[i].0,
        spec_in(y[j].1) == spec_in(x[i].1),
{
    let (a, b) = (JsonView::Object(x), JsonView::Object(y));
    let k = x[i].0;
    lemma_entry_found(x, k, 0, i);
    lemma_entry_from(y, k, 0);
    lemma_fields_alike(a, b, depth, k);
    let j = entry_from_index(y, k);
    lemma_spec_alike(x[i].1, y[j].1, (depth - 1) as nat);
    j
}

spec fn entry_from_index(entries: Seq<(Seq<char>, JsonView)>, key: Seq<char>) -> int {
    crate::json::entry_from(entries, key, 0)->0
}

/// An entry of the second of two objects that are alike has its counterpart in
/// the first.
proof fn lemma_counterpart_back(
    x: Seq<(Seq<char>, JsonView)>,
    y: Seq<(Seq<char>, JsonView)>,
    depth: nat,
    j: int,
) -> (i: int)
    requires
        alike(JsonView::Object(x), JsonView::Object(y), depth),
        depth > 1,
        0 <= j < y.len(),
    ensures
        0 <= i < x.len(),
        x[i].0 == y[j].0,
        spec_in(x[i].1) == spec_in(y[j].1),
{
    let (a, b) = (JsonView::Object(x), JsonView::Object(y));
    let k = y[j].0;
    lemma_entry_found(y, k, 0, j);
    lemma_entry_from(x, k, 0);
    lemma_fields_alike(a, b, depth, k);
    let i = entry_from_index(x, k);
    lemma_spec_alike(x[i].1, y[j].1, (depth - 1) as nat);
    i
}

proof fn lemma_specs_alike(
    x: Seq<(Seq<char>, JsonView)>,
    y: Seq<(Seq<char>, JsonView)>,
    depth: nat,
)
    requires
        alike(JsonView::Object(x), JsonView::Object(y), depth),
        depth > 1,
    ensures
        specs_among(x, x.len() as int) == specs_among(y, y.len() as int),
{
    lemma_specs_of_entries(x, x.len() as int);
    lemma_specs_of_entries(y, y.len() as int);
    let (sx, sy) = (specs_among(x, x.len() as int), specs_among(y, y.len() as int));
    if sx is Some {
        assert forall|j: int| 0 <= j < y.len() implies spec_in((#[trigger] y[j]).1) is Some by {
            let i = lemma_counterpart_back(x, y, depth, j);
            assert(spec_in(x[i].1) is Some);
        }
        let (mx, my) = (sx->0, sy->0);
        assert forall|k: Seq<char>| mx.contains_key(k) <==> my.contains_key(k) by {
            if mx.contains_key(k) {
                let i = choose|i: int| 0 <= i < x.len() && (#[trigger] x[i]).0 == k;
                let j = lemma_counterpart(x, y, depth, i);
                assert(my.contains_key(y[j].0));
            }
            if my.contains_key(k) {
                let j = choose|j: int| 0 <= j < y.len() && (#[trigger] y[j]).0 == k;
                let i = lemma_counterpart_back(x, y, depth, j);
                assert(mx.contains_key(x[i].0));
            }
        }
        assert forall|k: Seq<char>| #[trigger] mx.contains_key(k) implies mx[k] == my[k] by {
            let i = choose|i: int| 0 <= i < x.len() && (#[trigger] x[i]).0 == k;
            let j = lemma_counterpart(x, y, depth, i);
            assert(mx[x[i].0] == spec_in(x[i].1)->0);
            assert(my[y[j].0] == spec_in(y[j].1)->0);
        }
        assert(mx =~= my);
    } else if sy is Some {
        assert forall|i: int| 0 <= i < x.len() implies spec_in((#[trigger] x[i]).1) is Some by {
            let j = lemma_counterpart(x, y, depth, i);
            assert(spec_in(y[j].1) is Some);
        }
    }
}

/// Values that are alike file the same catalog.
proof fn lemma_catalog_alike(a: JsonView, b: JsonView)
    requires
        alike(a, b, readable_depth()),
    ensures
        catalog_in(a) == catalog_in(b),
{
    let depth = readable_depth();
    lemma_slots_alike(a, b, depth, 0, "models"@);
    lemma_slots_alike(a, b, depth, 1, "specs"@);
    lemma_slots_alike(a, b, depth, 3, "credential_key"@);
    lemma_slots_alike(a, b, depth, 2, "fetched_at_rfc3339"@);
    lemma_texts_alike(slot(a, 0, "models"@), slot(b, 0, "models"@), 99);
    match (slot(a, 1, "specs"@), slot(b, 1, "specs"@)) {
        (Some(v), Some(w)) => {
            lemma_slots_alike(v, w, 99, 0, "specs"@);
            match (slot(v, 0, "specs"@), slot(w, 0, "specs"@)) {
                (Some(JsonView::Object(x)), Some(JsonView::Object(y))) => {
                    lemma_specs_alike(x, y, 98);
                },
                _ => {},
            }
        },
        _ => {},
    }
}

/// A file that holds ids and no specs is read, with no specs.
pub proof fn law_ids_alone_are_read(models: Seq<Seq<char>>, fetched_at: Seq<char>)
    ensures
        catalog_in(
            JsonView::Object(
                seq![
                    ("models"@, texts_json(models)),
                    ("fetched_at_rfc3339"@, JsonView::Str(fetched_at)),
                ],
            ),
        ) == Some(
            PersistedView { models, specs: Map::empty(), credential_key: seq![], fetched_at },
        ),
{
    reveal_strlit("models");
    reveal_strlit("specs");
    reveal_strlit("credential_key");
    reveal_strlit("fetched_at_rfc3339");
    let entries = seq![
        ("models"@, texts_json(models)),
        ("fetched_at_rfc3339"@, JsonView::Str(fetched_at)),
    ];
    assert("models"@.len() == 6 && "specs"@.len() == 5 && "credential_key"@.len() == 14
        && "fetched_at_rfc3339"@.len() == 18);
    assert(entries[0].0 == "models"@ && entries[1].0 == "fetched_at_rfc3339"@);
    lemma_entry_found(entries, "models"@, 0, 0);
    lemma_entry_found(entries, "fetched_at_rfc3339"@, 0, 1);
    lemma_field_present(entries, "specs"@);
    lemma_field_present(entries, "credential_key"@);
    lemma_texts_in_back(models);
}

/// The value of a list of texts.
fn write_texts(texts: &Vec<String>) -> (r: Json)
    ensures
        r@ == texts_json(text_views(texts@)),
{
    let mut items: Vec<Json> = Vec::new();
    let mut i: usize = 0;
    while i < texts.len()
        invariant
            i <= texts@.len(),
            items@.len() == i,
            forall|k: int| 0 <= k < i ==> (#[trigger] items@[k])@ == JsonView::Str(texts@[k]@),
        decreases texts@.len() - i,
    {
        items.push(Json::text(texts[i].as_str()));
        i = i + 1;
    }
    assert(json_views(items@) =~= text_views(texts@).map_values(
        |t: Seq<char>| JsonView::Str(t),
    ));
    array(items)
}

fn write_size(size: Option<usize>) -> (r: Json)
    ensures
        r@ == size_json(size),
{
    match size {
        Some(n) => Json::UInt(n as u64),
        None => Json::Null,
    }
}

fn write_endpoint(endpoint: CopilotEndpoint) -> (r: Json)
    ensures
        r@ == JsonView::Str(endpoint_name(endpoint)),
{
    match endpoint {
        CopilotEndpoint::Messages => Json::text("Messages"),
        CopilotEndpoint::Responses => Json::text("Responses"),
        CopilotEndpoint::ChatCompletions => Json::text("ChatCompletions"),
    }
}

fn write_spec(spec: &ModelSpec) -> (r: Json)
    ensures
        r@ == spec_json(spec@),
{
    let mut entries = no_entries();
    put(&mut entries, "endpoint", write_endpoint(spec.endpoint));
    put(&mut entries, "context_window", write_size(spec.context_window));
    put(&mut entries, "max_output_tokens", write_size(spec.max_output_tokens));
    put(&mut entries, "reasoning_efforts", write_texts(&spec.reasoning_efforts));
    put(&mut entries, "supports_vision", Json::Bool(spec.supports_vision));
    put(&mut entries, "supports_tool_calls", Json::Bool(spec.supports_tool_calls));
    assert(entry_views(entries@) =~= spec_json(spec@)->Object_0);
    object(entries)
}

/// The models of a list of specs.
pub open spec fn spec_list(entries: Seq<(String, ModelSpec)>) -> Seq<(Seq<char>, SpecView)> {
    entries.map_values(|e: (String, ModelSpec)| (e.0@, e.1@))
}

fn write_specs(entries: &Vec<(String, ModelSpec)>) -> (r: Json)
    ensures
        r@ == JsonView::Object(spec_entries(spec_list(entries@))),
{
    let mut out = no_entries();
    let mut i: usize = 0;
    while i < entries.len()
        invariant
            i <= entries@.len(),
            entry_views(out@) =~= spec_entries(spec_list(entries@)).take(i as int),
        decreases entries@.len() - i,
    {
        put(&mut out, entries[i].0.as_str(), write_spec(&entries[i].1));
        i = i + 1;
    }
    assert(spec_entries(spec_list(entries@)).take(i as int) =~= spec_entries(
        spec_list(entries@),
    ));
    object(out)
}

pub(crate) fn read_texts(v: Option<&Json>) -> (r: Option<Vec<String>>)
    ensures
        (match r {
            Some(texts) => texts_in(json_option(v)) == Some(
                text_views(texts@),
            ),
            None => texts_in(json_option(v)) is None,
        }),
{
    let items = match v {
        Some(v) => match v.as_array() {
            Some(items) => items,
            None => {
                return None;
            },
        },
        None => {
            return None;
        },
    };
    let ghost views = json_views(items@);
    let mut r: Vec<String> = Vec::new();
    let mut i: usize = 0;
    assert(text_views(r@) =~= seq![]);
    while i < items.len()
        invariant
            i <= items@.len(),
            views == json_views(items@),
            texts_in(json_option(v)) == texts_of(
                views,
                views.len() as int,
            ),
            texts_of(views, i as int) == Some(text_views(r@)),
        decreases items@.len() - i,
    {
        assert(views[i as int] == items@[i as int]@);
        match items[i].as_str() {
            Some(t) => {
                let ghost before = r@;
                r.push(owned(t));
                assert(text_views(r@) =~= text_views(before).push(t@));
            },
            None => {
                proof {
                    assert(texts_of(views, i + 1) is None);
                    lemma_texts_none(views, i + 1, views.len() as int);
                }
                return None;
            },
        }
        i = i + 1;
    }
    Some(r)
}

proof fn lemma_texts_none(items: Seq<JsonView>, i: int, n: int)
    requires
        0 < i <= n,
        texts_of(items, i) is None,
    ensures
        texts_of(items, n) is None,
    decreases n,
{
    if i < n {
        lemma_texts_none(items, i, n - 1);
    }
}

pub(crate) fn read_size(v: Option<&Json>) -> (r: Option<Option<usize>>)
    ensures
        r == size_in(json_option(v)),
{
    match v {
        None => Some(None),
        Some(Json::Null) => Some(None),
        Some(Json::UInt(n)) => {
            if *n <= usize::MAX as u64 {
                Some(Some(*n as usize))
            } else {
                None
            }
        },
        Some(_) => None,
    }
}

fn read_bool(v: Option<&Json>) -> (r: Option<bool>)
    ensures
        r == bool_in(json_option(v)),
{
    match v {
        Some(Json::Bool(b)) => Some(*b),
        _ => None,
    }
}

fn read_endpoint(v: Option<&Json>) -> (r: Option<CopilotEndpoint>)
    ensures
        r == endpoint_named(json_option(v)),
{
    let name: &str = match v {
        Some(Json::Str(name)) => name.as_str(),
        Some(Json::Object(entries)) => {
            proof {
                lemma_object_view(*entries);
            }
            if entries.len() != 1 {
                return None;
            }
            match &entries[0].1 {
                Json::Null => entries[0].0.as_str(),
                _ => {
                    return None;
                },
            }
        },
        _ => {
            return None;
        },
    };
    if same(name, "Messages") {
        Some(CopilotEndpoint::Messages)
    } else if same(name, "Responses") {
        Some(CopilotEndpoint::Responses)
    } else if same(name, "ChatCompletions") {
        Some(CopilotEndpoint::ChatCompletions)
    } else {
        None
    }
}

fn read_spec(v: &Json) -> (r: Option<ModelSpec>)
    ensures
        (match r {
            Some(spec) => spec_in(v@) == Some(spec@),
            None => spec_in(v@) is None,
        }),
{
    if !v.is_record(6) {
        return None;
    }
    let endpoint = read_endpoint(v.slot(0, "endpoint"));
    let window = read_size(v.slot(1, "context_window"));
    let output = read_size(v.slot(2, "max_output_tokens"));
    let efforts = read_texts(v.slot(3, "reasoning_efforts"));
    let vision = read_bool(v.slot(4, "supports_vision"));
    let tools = read_bool(v.slot(5, "supports_tool_calls"));
    match (endpoint, window, output, efforts, vision, tools) {
        (
            Some(endpoint),
            Some(context_window),
            Some(max_output_tokens),
            Some(reasoning_efforts),
            Some(supports_vision),
            Some(supports_tool_calls),
        ) => Some(
            ModelSpec {
                endpoint,
                context_window,
                max_output_tokens,
                reasoning_efforts,
                supports_vision,
                supports_tool_calls,
            },
        ),
        _ => None,
    }
}

proof fn lemma_specs_none(entries: Seq<(Seq<char>, JsonView)>, i: int, n: int)
    requires
        0 < i <= n,
        specs_among(entries, i) is None,
    ensures
        specs_among(entries, n) is None,
    decreases n,
{
    if i < n {
        lemma_specs_none(entries, i, n - 1);
    }
}

fn read_specs(v: Option<&Json>) -> (r: Option<CatalogSpecs>)
    ensures
        (match r {
            Some(specs) => specs_in(json_option(v)) == Some(specs@),
            None => specs_in(json_option(v)) is None,
        }),
{
    let outer = match v {
        Some(outer) => outer,
        None => {
            return Some(CatalogSpecs::default());
        },
    };
    if !outer.is_record(1) {
        return None;
    }
    match outer.slot(0, "specs") {
        Some(Json::Object(entries)) => {
            let ghost views = entry_views(entries@);
            proof {
                lemma_object_view(*entries);
            }
            let mut specs = CatalogSpecs::default();
            let mut i: usize = 0;
            while i < entries.len()
                invariant
                    i <= entries@.len(),
                    views == entry_views(entries@),
                    specs_in(json_option(v)) == specs_among(
                        views,
                        views.len() as int,
                    ),
                    specs_among(views, i as int) == Some(specs@),
                decreases entries@.len() - i,
            {
                assert(views[i as int] == (entries@[i as int].0@, entries@[i as int].1@));
                match read_spec(&entries[i].1) {
                    Some(spec) => {
                        specs.insert(entries[i].0.clone(), spec);
                    },
                    None => {
                        proof {
                            assert(specs_among(views, i + 1) is None);
                            lemma_specs_none(views, i + 1, views.len() as int);
                        }
                        return None;
                    },
                }
                i = i + 1;
            }
            Some(specs)
        },
        _ => None,
    }
}

fn read_text_or_empty(v: Option<&Json>) -> (r: Option<String>)
    ensures
        (match r {
            Some(t) => text_or_empty(json_option(v)) == Some(t@),
            None => text_or_empty(json_option(v)) is None,
        }),
{
    match v {
        None => {
            let empty: String = String::new();
            assert(empty@ =~= seq![]);
            Some(empty)
        },
        Some(Json::Str(t)) => Some(t.clone()),
        Some(_) => None,
    }
}

/// The record of what is filed of a model.
pub open spec fn spec_shape() -> ShapeView {
    ShapeView::Record(
        seq![
            ("endpoint"@, ShapeView::Entries(Box::new(ShapeView::Value))),
            ("context_window"@, ShapeView::Value),
            ("max_output_tokens"@, ShapeView::Value),
            ("reasoning_efforts"@, ShapeView::Value),
            ("supports_vision"@, ShapeView::Value),
            ("supports_tool_calls"@, ShapeView::Value),
        ],
    )
}

fn spec_record() -> (r: Shape)
    ensures
        r@ == spec_shape(),
{
    let mut fields = no_fields();
    put_field(&mut fields, "endpoint", Shape::Entries(Box::new(Shape::Value)));
    put_field(&mut fields, "context_window", Shape::Value);
    put_field(&mut fields, "max_output_tokens", Shape::Value);
    put_field(&mut fields, "reasoning_efforts", Shape::Value);
    put_field(&mut fields, "supports_vision", Shape::Value);
    put_field(&mut fields, "supports_tool_calls", Shape::Value);
    assert(field_views(fields@) =~= spec_shape()->Record_0);
    record(fields)
}

/// The record of what is filed of all models.
pub open spec fn specs_shape() -> ShapeView {
    ShapeView::Record(
        seq![
            ("specs"@, ShapeView::Entries(Box::new(spec_shape()))),
        ],
    )
}

fn specs_record() -> (r: Shape)
    ensures
        r@ == specs_shape(),
{
    let mut fields = no_fields();
    put_field(&mut fields, "specs", Shape::Entries(Box::new(spec_record())));
    assert(field_views(fields@) =~= specs_shape()->Record_0);
    record(fields)
}

/// The record of a filed catalog.
pub open spec fn filed_shape() -> ShapeView {
    ShapeView::Record(
        seq![
            ("models"@, ShapeView::Value),
            ("specs"@, specs_shape()),
            ("fetched_at_rfc3339"@, ShapeView::Value),
            ("credential_key"@, ShapeView::Value),
        ],
    )
}

fn filed_record() -> (r: Shape)
    ensures
        r@ == filed_shape(),
{
    let mut fields = no_fields();
    put_field(&mut fields, "models", Shape::Value);
    put_field(&mut fields, "specs", specs_record());
    put_field(&mut fields, "fetched_at_rfc3339", Shape::Value);
    put_field(&mut fields, "credential_key", Shape::Value);
    assert(field_views(fields@) =~= filed_shape()->Record_0);
    record(fields)
}

/// The catalog in the text of a file, if the text is well formed.
pub open spec fn filed_catalog(text: Seq<char>) -> Option<PersistedView> {
    match typed(text, filed_shape()) {
        Some(v) => catalog_in(v),
        None => None,
    }
}

proof fn lemma_place_found(
    fields: Seq<(Seq<char>, ShapeView)>,
    name: Seq<char>,
    from: int,
    i: int,
)
    requires
        0 <= from <= i < fields.len(),
        fields[i].0 == name,
        forall|j: int| from <= j < i ==> (#[trigger] fields[j]).0 != name,
    ensures
        place_from(fields, name, from) == Some(i),
    decreases i - from,
{
    if from < i {
        lemma_place_found(fields, name, from + 1, i);
    }
}

proof fn lemma_spec_fits(spec: SpecView)
    ensures
        fits(spec_json(spec), spec_shape()),
{
    reveal_strlit("endpoint");
    reveal_strlit("context_window");
    reveal_strlit("max_output_tokens");
    reveal_strlit("reasoning_efforts");
    reveal_strlit("supports_vision");
    reveal_strlit("supports_tool_calls");
    assert("endpoint"@.len() == 8 && "context_window"@.len() == 14 && "max_output_tokens"@.len()
        == 17 && "reasoning_efforts"@.len() == 17 && "supports_vision"@.len() == 15
        && "supports_tool_calls"@.len() == 19);
    assert("max_output_tokens"@[0] == 'm' && "reasoning_efforts"@[0] == 'r');
    let entries = spec_json(spec)->Object_0;
    let fields = spec_shape()->Record_0;
    assert forall|j: int| 0 <= j < entries.len() implies (match place_from(
        fields,
        (#[trigger] entries[j]).0,
        0,
    ) {
        Some(at) => 0 <= at < fields.len() && fits(entries[j].1, fields[at].1),
        None => false,
    }) by {
        assert(j == 0 || j == 1 || j == 2 || j == 3 || j == 4 || j == 5);
        lemma_place_found(fields, entries[j].0, 0, j);
    }
}

proof fn lemma_catalog_fits(catalog: PersistedView, list: Seq<(Seq<char>, SpecView)>)
    ensures
        fits(catalog_json(catalog, list), filed_shape()),
{
    reveal_strlit("models");
    reveal_strlit("specs");
    reveal_strlit("credential_key");
    reveal_strlit("fetched_at_rfc3339");
    assert("models"@.len() == 6 && "specs"@.len() == 5 && "credential_key"@.len() == 14
        && "fetched_at_rfc3339"@.len() == 18);
    let specs = spec_entries(list);
    assert forall|j: int| 0 <= j < specs.len() implies fits(
        (#[trigger] specs[j]).1,
        spec_shape(),
    ) by {
        lemma_spec_fits(list[j].1);
    }
    assert(fits(JsonView::Object(specs), ShapeView::Entries(Box::new(spec_shape()))));
    let inner = seq![("specs"@, JsonView::Object(specs))];
    assert(fits(JsonView::Object(inner), specs_shape())) by {
        lemma_place_found(specs_shape()->Record_0, "specs"@, 0, 0);
    }
    let entries = catalog_json(catalog, list)->Object_0;
    let fields = filed_shape()->Record_0;
    lemma_place_found(fields, "models"@, 0, 0);
    lemma_place_found(fields, "specs"@, 0, 1);
    lemma_place_found(fields, "fetched_at_rfc3339"@, 0, 2);
    lemma_place_found(fields, "credential_key"@, 0, 3);
    assert forall|j: int| 0 <= j < entries.len() implies (match place_from(
        fields,
        (#[trigger] entries[j]).0,
        0,
    ) {
        Some(at) => 0 <= at < fields.len() && fits(entries[j].1, fields[at].1),
        None => false,
    }) by {
        assert(j == 0 || j == 1 || j == 2 || j == 3);
    }
}

impl PersistedCopilotCatalog {
    /// The value to file.
    pub fn to_json(&self) -> (r: Json)
        ensures
            exists|list: Seq<(Seq<char>, SpecView)>|
                lists_specs(list, self@.specs) && r@ == catalog_json(self@, list),
            catalog_in(r@) == Some(self@),
    {
        let entries = self.specs.iter();
        let ghost list = spec_list(entries@);
        proof {
            assert forall|i: int| 0 <= i < list.len() implies self@.specs.contains_key(
                (#[trigger] list[i]).0,
            ) && self@.specs[list[i].0] == list[i].1 by {
                lemma_entry_in_map(entries@, i);
            }
            assert forall|i: int, j: int| 0 <= i < j < list.len() implies (
            #[trigger] list[i]).0 != (#[trigger] list[j]).0 by {
                assert(entries@[i].0@ != entries@[j].0@);
            }
            assert forall|k: Seq<char>| #[trigger] self@.specs.contains_key(k) implies exists|
                i: int,
            | 0 <= i < list.len() && (#[trigger] list[i]).0 == k by {
                lemma_key_has_entry(entries@, k);
                let i = choose|i: int| 0 <= i < entries@.len() && (#[trigger] entries@[i]).0@ == k;
                assert(list[i].0 == k);
            }
            law_catalog_round_trips(self@, list);
        }
        let mut out = no_entries();
        put(&mut out, "models", write_texts(&self.models));
        put(&mut out, "specs", object1("specs", write_specs(entries)));
        put(&mut out, "credential_key", Json::text(self.credential_key.as_str()));
        put(&mut out, "fetched_at_rfc3339", Json::text(self.fetched_at_rfc3339.as_str()));
        assert(entry_views(out@) =~= catalog_json(self@, list)->Object_0);
        object(out)
    }

    /// The catalog that a value files, if it is well formed.
    pub fn from_json(v: &Json) -> (r: Option<PersistedCopilotCatalog>)
        ensures
            (match r {
                Some(catalog) => catalog_in(v@) == Some(catalog@),
                None => catalog_in(v@) is None,
            }),
    {
        if !v.is_record(4) {
            return None;
        }
        let models = read_texts(v.slot(0, "models"));
        let specs = read_specs(v.slot(1, "specs"));
        let key = read_text_or_empty(v.slot(3, "credential_key"));
        let fetched_at = match v.slot(2, "fetched_at_rfc3339") {
            Some(t) => t.as_str(),
            None => None,
        };
        match (models, specs, key, fetched_at) {
            (Some(models), Some(specs), Some(credential_key), Some(fetched_at)) => Some(
                PersistedCopilotCatalog {
                    models,
                    specs,
                    credential_key,
                    fetched_at_rfc3339: owned(fetched_at),
                },
            ),
            _ => None,
        }
    }

    /// The text to file. Reading it gives the catalog back.
    pub fn to_file(&self) -> (r: String)
        ensures
            exists|list: Seq<(Seq<char>, SpecView)>|
                lists_specs(list, self@.specs) && r@ == json_text(catalog_json(self@, list)),
            filed_catalog(r@) == Some(self@),
    {
        let value = self.to_json();
        let r = to_text(&value);
        proof {
            let list = choose|list: Seq<(Seq<char>, SpecView)>|
                lists_specs(list, self@.specs) && value@ == catalog_json(self@, list);
            lemma_catalog_plain(self@, list);
            lemma_catalog_fits(self@, list);
            lemma_told_is_read(r@, value@, filed_shape(), readable_depth());
            lemma_catalog_alike(value@, typed(r@, filed_shape())->0);
        }
        r
    }

    /// The catalog in the text of a file, if the text is well formed.
    pub fn from_file(text: &str) -> (r: Option<PersistedCopilotCatalog>)
        ensures
            (match r {
                Some(catalog) => filed_catalog(text@) == Some(catalog@),
                None => filed_catalog(text@) is None,
            }),
    {
        match read_typed(text, &filed_record()) {
            Some(v) => Self::from_json(&v),
            None => None,
        }
    }
}

/// Whether a filed catalog may be used with a token: it holds models, and the
/// same credential fetched it.
pub open spec fn usable_with(catalog: PersistedView, token: Seq<char>) -> bool {
    catalog.models.len() > 0 && catalog.credential_key == cache_key(token)
}

/// The filed catalog, if it may be used with `token`.
pub fn load_persisted_catalog(catalog: Option<PersistedCopilotCatalog>, token: &str) -> (r: Option<
    PersistedCopilotCatalog,
>)
    ensures
        (match r {
            Some(loaded) => catalog == Some(loaded) && usable_with(loaded@, token@),
            None => catalog matches Some(c) ==> !usable_with(c@, token@),
        }),
{
    match catalog {
        Some(catalog) => {
            let key = token_cache_key(token);
            if catalog.models.len() > 0 && same(catalog.credential_key.as_str(), key.as_str()) {
                Some(catalog)
            } else {
                None
            }
        },
        None => None,
    }
}

/// The catalog to file after a fetch with `token`; nothing where there are no
/// models.
pub fn persist_catalog(
    models: &Vec<String>,
    specs: &CatalogSpecs,
    token: &str,
    now_rfc3339: &str,
) -> (r: Option<PersistedCopilotCatalog>)
    ensures
        (match r {
            Some(catalog) => models@.len() > 0 && catalog@ == (PersistedView {
                models: text_views(models@),
                specs: specs@,
                credential_key: cache_key(token@),
                fetched_at: now_rfc3339@,
            }),
            None => models@.len() == 0,
        }),
{
    if models.len() == 0 {
        return None;
    }
    Some(
        PersistedCopilotCatalog {
            models: copy_texts(models),
            specs: specs.copy(),
            credential_key: token_cache_key(token),
            fetched_at_rfc3339: owned(now_rfc3339),
        },
    )
}

} // verus!
