//! What holds of every record that is read from its text: a field is read once, under
//! its name, and what nobody asks for is passed over.

use crate::catalog_store::{filed_shape, spec_shape};
use crate::copilot_enterprise::deployment_shape;
use crate::json::{entry_from, field, lemma_entry_found, lemma_entry_from, parsed_json, JsonView};
use crate::records::{
    after_space, json_space, list_parts, object_parts, opens, place_from, typed, typed_fields,
    typed_items, typed_places, ShapeView,
};
use crate::wire::{
    billing_shape, capabilities_shape, catalog_shape, endpoints_shape, limits_shape, model_shape,
    policy_shape, prices_shape, seat_shape, supports_shape, tier_shape, vision_shape,
};
use vstd::prelude::*;

verus! {

proof fn lemma_place(fields: Seq<(Seq<char>, ShapeView)>, name: Seq<char>, from: int)
    requires
        0 <= from,
    ensures
        place_from(fields, name, from) matches Some(at) ==> from <= at < fields.len()
            && fields[at].0 == name,
        place_from(fields, name, from) is None ==> forall|i: int|
            from <= i < fields.len() ==> (#[trigger] fields[i]).0 != name,
    decreases fields.len() - from,
{
    if from < fields.len() && fields[from].0 != name {
        lemma_place(fields, name, from + 1);
    }
}

proof fn lemma_fields(
    parts: Seq<(Seq<char>, Seq<char>)>,
    fields: Seq<(Seq<char>, ShapeView)>,
    n: int,
    i: int,
)
    requires
        0 <= i < n <= parts.len(),
        typed_fields(parts, fields, n) is Some,
    ensures
        ({
            let (name, text) = parts[i];
            let entries = typed_fields(parts, fields, n)->0;
            place_from(fields, name, 0) matches Some(at) ==> {
                &&& typed(text, fields[at].1) is Some
                &&& field(JsonView::Object(entries), name) == typed(text, fields[at].1)
                &&& forall|j: int| i < j < n ==> (#[trigger] parts[j]).0 != name
            }
        }),
    decreases n,
{
    let (name, text) = parts[i];
    let before = typed_fields(parts, fields, n - 1)->0;
    let entries = typed_fields(parts, fields, n)->0;
    lemma_place(fields, name, 0);
    lemma_place(fields, parts[n - 1].0, 0);
    lemma_entry_from(before, name, 0);
    lemma_entry_from(before, parts[n - 1].0, 0);
    if place_from(fields, name, 0) is Some {
        if i == n - 1 {
            let at = before.len() as int;
            assert(entries[at].0 == name);
            assert forall|j: int| 0 <= j < at implies (#[trigger] entries[j]).0 != name by {
                assert(entries[j] == before[j]);
            }
            lemma_entry_found(entries, name, 0, at);
        } else {
            lemma_fields(parts, fields, n - 1, i);
            let at = entry_from(before, name, 0)->0;
            assert(parts[n - 1].0 != name);
            assert forall|j: int| 0 <= j < at implies (#[trigger] entries[j]).0 != name by {
                assert(entries[j] == before[j]);
            }
            assert(entries[at] == before[at]);
            lemma_entry_found(entries, name, 0, at);
        }
    }
}

proof fn lemma_fields_asked_for(
    parts: Seq<(Seq<char>, Seq<char>)>,
    fields: Seq<(Seq<char>, ShapeView)>,
    n: int,
    name: Seq<char>,
)
    requires
        0 <= n <= parts.len(),
        typed_fields(parts, fields, n) is Some,
        place_from(fields, name, 0) is None || forall|j: int|
            0 <= j < n ==> (#[trigger] parts[j]).0 != name,
    ensures
        field(JsonView::Object(typed_fields(parts, fields, n)->0), name) is None,
    decreases n,
{
    let entries = typed_fields(parts, fields, n)->0;
    lemma_entry_from(entries, name, 0);
    if n > 0 {
        lemma_fields_asked_for(parts, fields, n - 1, name);
        let before = typed_fields(parts, fields, n - 1)->0;
        lemma_entry_from(before, name, 0);
        if let Some(i) = entry_from(entries, name, 0) {
            if i < before.len() {
                assert(entries[i] == before[i]);
            } else {
                assert(entries[i].0 == parts[n - 1].0);
            }
        }
    }
}

/// A record that is read from an object holds each field that it asks for, read as its
/// own shape, and nothing that it does not ask for. A field that stands twice is
/// refused, and a field that cannot be read is too.
pub proof fn law_fields_are_read_once(
    text: Seq<char>,
    fields: Seq<(Seq<char>, ShapeView)>,
    parts: Seq<(Seq<char>, Seq<char>)>,
    i: int,
    name: Seq<char>,
)
    requires
        opens(text, '{'),
        object_parts(text) == Some(parts),
        typed(text, ShapeView::Record(fields)) is Some,
    ensures
        ({
            let v = typed(text, ShapeView::Record(fields))->0;
            &&& v is Object
            &&& 0 <= i < parts.len() ==> (place_from(fields, parts[i].0, 0) matches Some(at)
                ==> field(v, parts[i].0) == typed(parts[i].1, fields[at].1) && field(v, parts[i].0)
                is Some && (forall|j: int|
                i < j < parts.len() ==> (#[trigger] parts[j]).0 != parts[i].0))
            &&& (forall|j: int| 0 <= j < parts.len() ==> (#[trigger] parts[j]).0 != name) ==> field(
                v,
                name,
            ) is None
            &&& place_from(fields, name, 0) is None ==> field(v, name) is None
        }),
{
    let n = parts.len() as int;
    if 0 <= i < n {
        lemma_fields(parts, fields, n, i);
    }
    if place_from(fields, name, 0) is None || (forall|j: int|
        0 <= j < n ==> (#[trigger] parts[j]).0 != name) {
        lemma_fields_asked_for(parts, fields, n, name);
    }
}

proof fn lemma_places(parts: Seq<Seq<char>>, fields: Seq<(Seq<char>, ShapeView)>, n: int, i: int)
    requires
        0 <= i < n <= parts.len(),
        typed_places(parts, fields, n) is Some,
    ensures
        n <= fields.len(),
        typed_places(parts, fields, n)->0.len() == n,
        typed(parts[i], fields[i].1) == Some(typed_places(parts, fields, n)->0[i]),
    decreases n,
{
    if i < n - 1 {
        lemma_places(parts, fields, n - 1, i);
    } else if n > 1 {
        lemma_places(parts, fields, n - 1, 0);
    }
}

proof fn lemma_items(parts: Seq<Seq<char>>, item: ShapeView, n: int, i: int)
    requires
        0 <= i < n <= parts.len(),
        typed_items(parts, item, n) is Some,
    ensures
        typed_items(parts, item, n)->0.len() == n,
        typed(parts[i], item) == Some(typed_items(parts, item, n)->0[i]),
    decreases n,
{
    if i < n - 1 {
        lemma_items(parts, item, n - 1, i);
    } else if n > 1 {
        lemma_items(parts, item, n - 1, 0);
    }
}

/// A record that is read from a list holds its fields by place, and a list that is too
/// long is refused. A list holds all of its items, in order.
pub proof fn law_lists_are_read_by_place(
    text: Seq<char>,
    fields: Seq<(Seq<char>, ShapeView)>,
    item: ShapeView,
    parts: Seq<Seq<char>>,
    i: int,
)
    requires
        opens(text, '['),
        list_parts(text) == Some(parts),
        0 <= i < parts.len(),
    ensures
        parts.len() > fields.len() ==> typed(text, ShapeView::Record(fields)) is None,
        typed(text, ShapeView::Record(fields)) matches Some(v) ==> (v matches JsonView::Array(items)
            && items.len() == parts.len() && typed(parts[i], fields[i].1) == Some(items[i])),
        typed(text, ShapeView::List(Box::new(item))) matches Some(v) ==> (v matches JsonView::Array(
            items,
        ) && items.len() == parts.len() && typed(parts[i], item) == Some(items[i])),
{
    assert(!opens(text, '{'));
    let n = parts.len() as int;
    if typed(text, ShapeView::Record(fields)) is Some {
        lemma_places(parts, fields, n, i);
    }
    if typed(text, ShapeView::List(Box::new(item))) is Some {
        lemma_items(parts, item, n, i);
    }
}

/// A value is read as it stands, and so is what is neither an object nor a list.
pub proof fn law_values_are_read_as_they_stand(
    text: Seq<char>,
    fields: Seq<(Seq<char>, ShapeView)>,
    item: ShapeView,
)
    ensures
        typed(text, ShapeView::Value) == parsed_json(text),
        !opens(text, '{') && !opens(text, '[') ==> typed(text, ShapeView::Record(fields))
            == parsed_json(text),
        !opens(text, '[') ==> typed(text, ShapeView::List(Box::new(item))) == parsed_json(text),
        !opens(text, '{') ==> typed(text, ShapeView::Entries(Box::new(item))) == parsed_json(text),
{
}

/// The white space of JSON in front of a text is passed over, and nothing else.
pub proof fn law_json_space_is_passed_over(s: Seq<char>, c: char)
    ensures
        c == ' ' || c == '\n' || c == '\t' || c == '\r' <==> json_space(c),
        json_space(c) ==> after_space(seq![c] + s) == after_space(s),
        !json_space(c) ==> after_space(seq![c] + s) == seq![c] + s && opens(seq![c] + s, c),
        after_space(Seq::<char>::empty()) == Seq::<char>::empty(),
{
    assert((seq![c] + s).skip(1) =~= s);
    assert((seq![c] + s)[0] == c);
}

/// Whether a shape is a record with a field of this name at this place.
pub open spec fn asks(shape: ShapeView, at: int, name: Seq<char>) -> bool {
    shape matches ShapeView::Record(fields) && 0 <= at < fields.len() && fields[at].0 == name
}

/// The records of the service are read under the service's names.
pub proof fn law_shapes_ask_for_the_names()
    ensures
        asks(catalog_shape(), 0, "data"@),
        catalog_shape()->Record_0[0].1 == ShapeView::List(Box::new(model_shape())),
        asks(model_shape(), 0, "id"@) && asks(model_shape(), 1, "name"@) && asks(
            model_shape(),
            2,
            "vendor"@,
        ) && asks(model_shape(), 3, "version"@) && asks(model_shape(), 4, "model_picker_enabled"@)
            && asks(model_shape(), 5, "capabilities"@) && asks(
            model_shape(),
            6,
            "supported_endpoints"@,
        ) && asks(model_shape(), 7, "policy"@) && asks(model_shape(), 8, "billing"@),
        model_shape()->Record_0[5].1 == capabilities_shape() && model_shape()->Record_0[7].1
            == policy_shape() && model_shape()->Record_0[8].1 == billing_shape(),
        asks(capabilities_shape(), 0, "limits"@) && asks(capabilities_shape(), 1, "supports"@),
        capabilities_shape()->Record_0[0].1 == limits_shape()
            && capabilities_shape()->Record_0[1].1 == supports_shape(),
        asks(limits_shape(), 0, "max_context_window_tokens"@) && asks(
            limits_shape(),
            1,
            "max_output_tokens"@,
        ) && asks(limits_shape(), 2, "max_prompt_tokens"@) && asks(limits_shape(), 3, "vision"@),
        limits_shape()->Record_0[3].1 == vision_shape(),
        asks(vision_shape(), 0, "supported_media_types"@),
        asks(supports_shape(), 0, "tool_calls"@) && asks(supports_shape(), 1, "vision"@) && asks(
            supports_shape(),
            5,
            "reasoning_effort"@,
        ),
        asks(policy_shape(), 0, "state"@),
        asks(billing_shape(), 0, "token_prices"@) && billing_shape()->Record_0[0].1
            == prices_shape(),
        asks(prices_shape(), 0, "batch_size"@) && asks(prices_shape(), 1, "default"@)
            && prices_shape()->Record_0[1].1 == tier_shape(),
        asks(tier_shape(), 0, "input_price"@) && asks(tier_shape(), 1, "output_price"@) && asks(
            tier_shape(),
            2,
            "cache_price"@,
        ),
        asks(seat_shape(), 0, "login"@) && asks(seat_shape(), 1, "copilot_plan"@) && asks(
            seat_shape(),
            5,
            "endpoints"@,
        ) && seat_shape()->Record_0[5].1 == endpoints_shape(),
        asks(endpoints_shape(), 0, "api"@),
        asks(deployment_shape(), 0, "enterprise_domain"@),
        asks(filed_shape(), 0, "models"@) && asks(filed_shape(), 1, "specs"@) && asks(
            filed_shape(),
            2,
            "fetched_at_rfc3339"@,
        ) && asks(filed_shape(), 3, "credential_key"@),
        asks(spec_shape(), 0, "endpoint"@) && asks(spec_shape(), 1, "context_window"@) && asks(
            spec_shape(),
            2,
            "max_output_tokens"@,
        ) && asks(spec_shape(), 3, "reasoning_efforts"@) && asks(spec_shape(), 4, "supports_vision"@)
            && asks(spec_shape(), 5, "supports_tool_calls"@),
{
}

} // verus!
