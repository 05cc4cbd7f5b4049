//! Requests to the `/v1/messages` route.
//!
//! Copilot serves Anthropic's models over their own Messages API, with a few
//! deviations: the session is no OAuth session, there is no long cache lifetime,
//! and reasoning is asked for through `output_config`.

use crate::copilot_enterprise::str_option;
use crate::json::{
    array, copy_all, entry_views, field, json_views, lemma_field_present, no_entries, object, object1, object2, put, Json,
    JsonView,
};
use vstd::prelude::*;

verus! {

/// Interleaved thinking keeps reasoning coherent between tool calls.
pub const ANTHROPIC_BETA: &'static str = "interleaved-thinking-2025-05-14";

/// An entry that stands in a body only where there is a value.
pub open spec fn optional_entry(key: Seq<char>, value: Option<JsonView>) -> Seq<
    (Seq<char>, JsonView),
> {
    match value {
        Some(value) => seq![(key, value)],
        None => seq![],
    }
}

/// A request body of the route. Tools are left out where there are none: an
/// empty list is rejected.
pub open spec fn messages_body(
    model: Seq<char>,
    system: Option<JsonView>,
    messages: Seq<JsonView>,
    tools: Seq<JsonView>,
    max_tokens: u32,
    effort: Option<Seq<char>>,
) -> JsonView {
    JsonView::Object(
        seq![
            ("model"@, JsonView::Str(model)),
            ("max_tokens"@, JsonView::UInt(max_tokens as u64)),
        ] + optional_entry("system"@, system) + seq![("messages"@, JsonView::Array(messages))]
            + optional_entry(
            "tools"@,
            if tools.len() == 0 {
                None
            } else {
                Some(JsonView::Array(tools))
            },
        ) + optional_entry(
            "output_config"@,
            match effort {
                Some(effort) => Some(JsonView::Object(seq![("effort"@, JsonView::Str(effort))])),
                None => None,
            },
        ) + seq![("stream"@, JsonView::Bool(true))],
    )
}

/// The model of a value that may be absent.
pub open spec fn json_option(value: Option<&Json>) -> Option<JsonView> {
    match value {
        Some(value) => Some(value@),
        None => None,
    }
}

/// Builds a request body of the route, from a system parameter, messages and
/// tools in the Messages API's own shape.
pub fn build_request(
    model: &str,
    system: Option<&Json>,
    messages: &Vec<Json>,
    tools: &Vec<Json>,
    max_tokens: u32,
    reasoning_effort: Option<&str>,
) -> (r: Json)
    ensures
        r@ == messages_body(
            model@,
            json_option(system),
            json_views(messages@),
            json_views(tools@),
            max_tokens,
            str_option(reasoning_effort),
        ),
{
    let mut entries = no_entries();
    put(&mut entries, "model", Json::text(model));
    put(&mut entries, "max_tokens", Json::UInt(max_tokens as u64));
    match system {
        Some(system) => {
            put(&mut entries, "system", system.copy());
        },
        None => {},
    }
    put(&mut entries, "messages", array(copy_all(messages)));
    if tools.len() > 0 {
        put(&mut entries, "tools", array(copy_all(tools)));
    }
    match reasoning_effort {
        Some(effort) => {
            put(&mut entries, "output_config", object1("effort", Json::text(effort)));
        },
        None => {},
    }
    put(&mut entries, "stream", Json::Bool(true));
    assert(entry_views(entries@) =~= messages_body(
        model@,
        json_option(system),
        json_views(messages@),
        json_views(tools@),
        max_tokens,
        str_option(reasoning_effort),
    )->Object_0);
    object(entries)
}

/// The body of a request with one user turn.
pub open spec fn probe_body(
    model: Seq<char>,
    system: Seq<char>,
    prompt: Seq<char>,
    max_tokens: u32,
) -> JsonView {
    messages_body(
        model,
        if system.len() == 0 {
            None
        } else {
            Some(JsonView::Array(seq![text_block(system)]))
        },
        seq![
            JsonView::Object(
                seq![
                    ("role"@, JsonView::Str("user"@)),
                    ("content"@, JsonView::Array(seq![text_block(prompt)])),
                ],
            ),
        ],
        seq![],
        max_tokens,
        None,
    )
}

/// A block of text in the Messages API's shape.
pub open spec fn text_block(text: Seq<char>) -> JsonView {
    JsonView::Object(seq![("type"@, JsonView::Str("text"@)), ("text"@, JsonView::Str(text))])
}

/// A list with one block of text.
fn one_block(text: &str) -> (r: Json)
    ensures
        r@ == JsonView::Array(seq![text_block(text@)]),
{
    let mut blocks: Vec<Json> = Vec::new();
    blocks.push(object2("type", Json::text("text"), "text", Json::text(text)));
    assert(json_views(blocks@) =~= seq![text_block(text@)]);
    array(blocks)
}

/// Builds the body of a request with one user turn.
pub fn build_messages_request(model: &str, system: &str, prompt: &str, max_tokens: u32) -> (r: Json)
    ensures
        r@ == probe_body(model@, system@, prompt@, max_tokens),
{
    let mut messages: Vec<Json> = Vec::new();
    messages.push(object2("role", Json::text("user"), "content", one_block(prompt)));
    let tools: Vec<Json> = Vec::new();
    assert(json_views(messages@) =~= seq![
        JsonView::Object(
            seq![
                ("role"@, JsonView::Str("user"@)),
                ("content"@, JsonView::Array(seq![text_block(prompt@)])),
            ],
        ),
    ]);
    assert(json_views(tools@) =~= seq![]);
    if system.is_empty() {
        build_request(model, None, &messages, &tools, max_tokens, None)
    } else {
        let parameter = one_block(system);
        build_request(model, Some(&parameter), &messages, &tools, max_tokens, None)
    }
}

/// Whatever is asked for, tools stand in a body exactly where there are tools,
/// and reasoning is never asked for by a budget.
pub proof fn law_tools_are_never_empty(
    model: Seq<char>,
    system: Option<JsonView>,
    messages: Seq<JsonView>,
    tools: Seq<JsonView>,
    max_tokens: u32,
    effort: Option<Seq<char>>,
)
    ensures
        ({
            let body = messages_body(model, system, messages, tools, max_tokens, effort);
            &&& field(body, "tools"@) is Some <==> tools.len() > 0
            &&& field(body, "thinking"@) is None
            &&& field(body, "output_config"@) is Some <==> effort is Some
        }),
{
    reveal_strlit("model");
    reveal_strlit("max_tokens");
    reveal_strlit("system");
    reveal_strlit("messages");
    reveal_strlit("tools");
    reveal_strlit("output_config");
    reveal_strlit("stream");
    reveal_strlit("thinking");
    let entries = messages_body(model, system, messages, tools, max_tokens, effort)->Object_0;
    assert("model"@[0] == 'm');
    assert("tools"@[0] == 't');
    assert("messages"@[0] == 'm');
    assert("thinking"@[0] == 't');
    assert("output_config"@.len() == 13);
    assert("tools"@.len() == 5);
    assert("max_tokens"@.len() == 10);
    assert("system"@.len() == 6);
    assert("stream"@.len() == 6);
    assert forall|j: int| 0 <= j < entries.len() implies (#[trigger] entries[j]).0 == "model"@
        || entries[j].0 == "max_tokens"@ || entries[j].0 == "messages"@ || entries[j].0
        == "stream"@ || entries[j].0 == "system"@ || (tools.len() > 0 && entries[j].0 == "tools"@)
        || (effort is Some && entries[j].0 == "output_config"@) by {
        assert(entries.len() <= 7);
    }
    lemma_field_present(entries, "tools"@);
    lemma_field_present(entries, "thinking"@);
    lemma_field_present(entries, "output_config"@);
    let shift = if system is Some {
        1int
    } else {
        0int
    };
    if tools.len() > 0 {
        assert(entries[3 + shift].0 == "tools"@);
    }
    if effort is Some {
        assert(entries[entries.len() - 2].0 == "output_config"@);
    }
}

} // verus!
