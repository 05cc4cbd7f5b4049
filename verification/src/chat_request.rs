//! Requests to the `/chat/completions` route, apart from their messages.

use crate::json::{array, copy_all, json_views, object2, object3, with_field, Json, JsonView};
use crate::keyed::{lists, text_views};
use crate::message::ToolDefinition;
use crate::text::{
    ascii_lowered, begins, concat, owned, starts_with, to_ascii_lowercase, trim, trimmed,
};
use vstd::prelude::*;

verus! {

/// The `X-GitHub-Api-Version` of requests to the Copilot API. Older versions
/// leave prices out of the catalog.
pub const COPILOT_API_VERSION: &'static str = "2026-06-01";

/// The default model: an id of the Copilot catalog, which separates versions by
/// a dot. `family` is what the ids of Anthropic's models begin with.
pub open spec fn default_id(family: Seq<char>) -> Seq<char> {
    family + "-sonnet-4.6"@
}

/// The default model.
pub fn default_model(family: &str) -> (r: String)
    ensures
        r@ == default_id(family@),
{
    concat(family, "-sonnet-4.6")
}

/// A list of models kept on disk.
#[derive(Debug)]
pub struct PersistedCatalog {
    pub models: Vec<String>,
    pub fetched_at_rfc3339: String,
}

/// The static list of models. What an account can reach is known from the live
/// catalog only, so nothing may depend on membership here.
pub open spec fn static_models(family: Seq<char>) -> Seq<Seq<char>> {
    seq![
        family + "-sonnet-4.6"@,
        family + "-sonnet-4.5"@,
        family + "-haiku-4.5"@,
        family + "-opus-4.6"@,
        family + "-opus-4.5"@,
        family + "-sonnet-4"@,
        "gpt-5.4"@,
        "gpt-5.3-codex"@,
        "gpt-5.1-codex"@,
        "gpt-5.1"@,
        "gpt-5-mini"@,
        "gpt-4.1"@,
    ]
}

/// The static list of models.
pub fn fallback_models(family: &str) -> (r: Vec<String>)
    ensures
        text_views(r@) == static_models(family@),
{
    let r: Vec<String> = vec![
        concat(family, "-sonnet-4.6"),
        concat(family, "-sonnet-4.5"),
        concat(family, "-haiku-4.5"),
        concat(family, "-opus-4.6"),
        concat(family, "-opus-4.5"),
        concat(family, "-sonnet-4"),
        owned("gpt-5.4"),
        owned("gpt-5.3-codex"),
        owned("gpt-5.1-codex"),
        owned("gpt-5.1"),
        owned("gpt-5-mini"),
        owned("gpt-4.1"),
    ];
    assert(text_views(r@) =~= static_models(family@));
    r
}

/// Whether the static list names a model.
pub fn is_known_display_model(model: &str, family: &str) -> (r: bool)
    ensures
        r == static_models(family@).contains(model@),
{
    lists(&fallback_models(family), model)
}

/// The name of the parameter that limits the output of `model`.
pub open spec fn max_token_key(model: Seq<char>) -> Seq<char> {
    if begins(ascii_lowered(trimmed(model)), "gpt-5"@) {
        "max_completion_tokens"@
    } else {
        "max_tokens"@
    }
}

/// The name of the parameter that limits the output of `model`.
pub fn max_token_parameter_for_model(model: &str) -> (r: &'static str)
    ensures
        r@ == max_token_key(model@),
{
    let normalized = to_ascii_lowercase(trim(model));
    if starts_with(normalized.as_str(), "gpt-5") {
        "max_completion_tokens"
    } else {
        "max_tokens"
    }
}

/// Writes the limit of the output into a request body.
pub fn add_max_token_parameter(body: &mut Json, model: &str, max_tokens: u32)
    requires
        old(body)@ is Object || old(body)@ is Null,
    ensures
        final(body)@ == with_field(
            old(body)@,
            max_token_key(model@),
            JsonView::UInt(max_tokens as u64),
        ),
{
    body.set(max_token_parameter_for_model(model), Json::UInt(max_tokens as u64));
}

/// One tool, as the route takes it.
pub open spec fn tool_json(tool: ToolDefinition) -> JsonView {
    JsonView::Object(
        seq![
            ("type"@, JsonView::Str("function"@)),
            (
                "function"@,
                JsonView::Object(
                    seq![
                        ("name"@, JsonView::Str(tool.name@)),
                        ("description"@, JsonView::Str(tool.description@)),
                        ("parameters"@, tool.input_schema@),
                    ],
                ),
            ),
        ],
    )
}

/// The tools, as the route takes them. Their schemas come in the dialect that
/// the route accepts.
pub fn build_tools(tools: &Vec<ToolDefinition>) -> (r: Vec<Json>)
    ensures
        json_views(r@) == tools@.map_values(|t: ToolDefinition| tool_json(t)),
{
    let mut r: Vec<Json> = Vec::new();
    let mut i: usize = 0;
    while i < tools.len()
        invariant
            i <= tools@.len(),
            r@.len() == i,
            forall|k: int| 0 <= k < i ==> (#[trigger] r@[k])@ == tool_json(tools@[k]),
        decreases tools@.len() - i,
    {
        let tool = &tools[i];
        let function = object3(
            "name",
            Json::text(tool.name.as_str()),
            "description",
            Json::text(tool.description.as_str()),
            "parameters",
            tool.input_schema.copy(),
        );
        r.push(object2("type", Json::text("function"), "function", function));
        i = i + 1;
    }
    assert(json_views(r@) =~= tools@.map_values(|t: ToolDefinition| tool_json(t)));
    r
}

/// `body` with an effort under `reasoning_effort`, where there is one.
pub open spec fn with_effort(body: JsonView, effort: Option<Seq<char>>) -> JsonView {
    match effort {
        Some(effort) => with_field(body, "reasoning_effort"@, JsonView::Str(effort)),
        None => body,
    }
}

/// A request body of the route.
pub open spec fn chat_body(
    model: Seq<char>,
    messages: Seq<JsonView>,
    tools: Seq<JsonView>,
    max_tokens: u32,
    effort: Option<Seq<char>>,
) -> JsonView {
    let plain = JsonView::Object(
        seq![
            ("model"@, JsonView::Str(model)),
            ("messages"@, JsonView::Array(messages)),
            ("stream"@, JsonView::Bool(true)),
        ],
    );
    let limited = with_effort(
        with_field(plain, max_token_key(model), JsonView::UInt(max_tokens as u64)),
        effort,
    );
    if tools.len() == 0 {
        limited
    } else {
        with_field(limited, "tools"@, JsonView::Array(tools))
    }
}

/// Builds a request body of the route.
pub fn build_request(
    model: &str,
    messages: &Vec<Json>,
    tools: &Vec<Json>,
    max_tokens: u32,
    effort: Option<&str>,
) -> (r: Json)
    ensures
        r@ == chat_body(
            model@,
            json_views(messages@),
            json_views(tools@),
            max_tokens,
            crate::copilot_enterprise::str_option(effort),
        ),
{
    let mut body = object3(
        "model",
        Json::text(model),
        "messages",
        array(copy_all(messages)),
        "stream",
        Json::Bool(true),
    );
    add_max_token_parameter(&mut body, model, max_tokens);
    match effort {
        Some(effort) => {
            body.set("reasoning_effort", Json::text(effort));
        },
        None => {},
    }
    if tools.len() > 0 {
        body.set("tools", array(copy_all(tools)));
    }
    body
}

/// What of a turn identifies it in the logs.
pub open spec fn canonical_body(
    model: Seq<char>,
    messages: Seq<JsonView>,
    tools: Seq<JsonView>,
    max_tokens: u32,
    effort: Option<Seq<char>>,
) -> JsonView {
    let plain = JsonView::Object(
        seq![
            ("model"@, JsonView::Str(model)),
            ("messages"@, JsonView::Array(messages)),
            ("tools"@, JsonView::Array(tools)),
        ],
    );
    with_effort(
        with_field(plain, max_token_key(model), JsonView::UInt(max_tokens as u64)),
        effort,
    )
}

/// Builds what of a turn identifies it in the logs.
pub fn canonical_payload(
    model: &str,
    messages: &Vec<Json>,
    tools: &Vec<Json>,
    max_tokens: u32,
    effort: Option<&str>,
) -> (r: Json)
    ensures
        r@ == canonical_body(
            model@,
            json_views(messages@),
            json_views(tools@),
            max_tokens,
            crate::copilot_enterprise::str_option(effort),
        ),
{
    let mut body = object3(
        "model",
        Json::text(model),
        "messages",
        array(copy_all(messages)),
        "tools",
        array(copy_all(tools)),
    );
    add_max_token_parameter(&mut body, model, max_tokens);
    match effort {
        Some(effort) => {
            body.set("reasoning_effort", Json::text(effort));
        },
        None => {},
    }
    body
}

} // verus!
