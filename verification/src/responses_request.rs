//! Requests to the `/responses` route, which alone serves some models.

use crate::copilot_enterprise::str_option;
use crate::json::{
    array, copy_all, entry_views, field, json_views, lemma_entry_found, lemma_field_present,
    no_entries, object, object1, put, Json, JsonView,
};
use crate::messages_request::optional_entry;
use vstd::prelude::*;

verus! {

/// A request body of the route. The reply is never stored: a request to store it
/// is rejected. Tools and the choice among them stand in it together, and only
/// where there are tools.
pub open spec fn responses_body(
    model: Seq<char>,
    system: Seq<char>,
    input: Seq<JsonView>,
    tools: Seq<JsonView>,
    max_output_tokens: u32,
    effort: Option<Seq<char>>,
) -> JsonView {
    JsonView::Object(
        seq![
            ("model"@, JsonView::Str(model)),
            ("instructions"@, JsonView::Str(system)),
            ("input"@, JsonView::Array(input)),
            ("stream"@, JsonView::Bool(true)),
            ("store"@, JsonView::Bool(false)),
            ("max_output_tokens"@, JsonView::UInt(max_output_tokens as u64)),
        ] + (if tools.len() == 0 {
            seq![]
        } else {
            seq![
                ("tools"@, JsonView::Array(tools)),
                ("tool_choice"@, JsonView::Str("auto"@)),
            ]
        }) + optional_entry(
            "reasoning"@,
            match effort {
                Some(effort) => Some(JsonView::Object(seq![("effort"@, JsonView::Str(effort))])),
                None => None,
            },
        ),
    )
}

/// Builds a request body of the route, from input and tools in the Responses
/// API's own shape.
pub fn build_request(
    model: &str,
    system: &str,
    input: &Vec<Json>,
    tools: &Vec<Json>,
    max_output_tokens: u32,
    reasoning_effort: Option<&str>,
) -> (r: Json)
    ensures
        r@ == responses_body(
            model@,
            system@,
            json_views(input@),
            json_views(tools@),
            max_output_tokens,
            str_option(reasoning_effort),
        ),
{
    let mut entries = no_entries();
    put(&mut entries, "model", Json::text(model));
    put(&mut entries, "instructions", Json::text(system));
    put(&mut entries, "input", array(copy_all(input)));
    put(&mut entries, "stream", Json::Bool(true));
    put(&mut entries, "store", Json::Bool(false));
    put(&mut entries, "max_output_tokens", Json::UInt(max_output_tokens as u64));
    if tools.len() > 0 {
        put(&mut entries, "tools", array(copy_all(tools)));
        put(&mut entries, "tool_choice", Json::text("auto"));
    }
    match reasoning_effort {
        Some(effort) => {
            put(&mut entries, "reasoning", object1("effort", Json::text(effort)));
        },
        None => {},
    }
    assert(entry_views(entries@) =~= responses_body(
        model@,
        system@,
        json_views(input@),
        json_views(tools@),
        max_output_tokens,
        str_option(reasoning_effort),
    )->Object_0);
    object(entries)
}

/// Whatever is asked for, the reply is not stored, the instructions are the
/// system prompt, and the choice among tools is given exactly where there are
/// tools.
pub proof fn law_reply_is_never_stored(
    model: Seq<char>,
    system: Seq<char>,
    input: Seq<JsonView>,
    tools: Seq<JsonView>,
    max_output_tokens: u32,
    effort: Option<Seq<char>>,
)
    ensures
        ({
            let body = responses_body(model, system, input, tools, max_output_tokens, effort);
            &&& field(body, "store"@) == Some(JsonView::Bool(false))
            &&& field(body, "instructions"@) == Some(JsonView::Str(system))
            &&& field(body, "tools"@) is Some <==> tools.len() > 0
            &&& field(body, "tool_choice"@) is Some <==> tools.len() > 0
            &&& field(body, "reasoning_effort"@) is None
            &&& field(body, "max_tokens"@) is None
        }),
{
    reveal_strlit("model");
    reveal_strlit("instructions");
    reveal_strlit("input");
    reveal_strlit("stream");
    reveal_strlit("store");
    reveal_strlit("max_output_tokens");
    reveal_strlit("tools");
    reveal_strlit("tool_choice");
    reveal_strlit("reasoning");
    reveal_strlit("reasoning_effort");
    reveal_strlit("max_tokens");
    let entries = responses_body(
        model,
        system,
        input,
        tools,
        max_output_tokens,
        effort,
    )->Object_0;
    assert("model"@[0] == 'm');
    assert("input"@[0] == 'i');
    assert("store"@[0] == 's');
    assert("tools"@[0] == 't');
    assert("tools"@.len() == 5);
    assert("tool_choice"@.len() == 11);
    assert("reasoning"@.len() == 9);
    assert("reasoning_effort"@.len() == 16);
    assert("max_tokens"@.len() == 10);
    assert("instructions"@.len() == 12);
    assert("max_output_tokens"@.len() == 17);
    assert("stream"@.len() == 6);
    assert(entries[0].0 == "model"@);
    assert(entries[1].0 == "instructions"@);
    assert(entries[2].0 == "input"@);
    assert(entries[3].0 == "stream"@);
    assert(entries[4].0 == "store"@);
    assert(entries[5].0 == "max_output_tokens"@);
    assert forall|j: int| 6 <= j < entries.len() implies (#[trigger] entries[j]).0 == "reasoning"@
        || (tools.len() > 0 && (entries[j].0 == "tools"@ || entries[j].0 == "tool_choice"@)) by {
        if tools.len() > 0 {
            assert(j == 6 || j == 7 || j == 8);
        }
    }
    lemma_entry_found(entries, "store"@, 0, 4);
    lemma_entry_found(entries, "instructions"@, 0, 1);
    assert forall|j: int| 0 <= j < entries.len() implies (#[trigger] entries[j]).0
        != "reasoning_effort"@ && entries[j].0 != "max_tokens"@ && (tools.len() == 0
        ==> entries[j].0 != "tools"@ && entries[j].0 != "tool_choice"@) by {
        if j < 6 {
            assert(j == 0 || j == 1 || j == 2 || j == 3 || j == 4 || j == 5);
        }
    }
    lemma_field_present(entries, "tools"@);
    lemma_field_present(entries, "tool_choice"@);
    lemma_field_present(entries, "reasoning_effort"@);
    lemma_field_present(entries, "max_tokens"@);
    if tools.len() > 0 {
        assert(entries[6].0 == "tools"@);
        assert(entries[7].0 == "tool_choice"@);
    }
}

} // verus!
