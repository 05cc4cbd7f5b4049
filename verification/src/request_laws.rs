//! What holds of every request body: which of its fields holds what.

use crate::chat_request::{
    canonical_body, chat_body, max_token_key, tool_json, with_effort,
};
use crate::json::{
    entry_from, field, law_field_after_write, lemma_entry_from, with_field, JsonView,
};
use crate::message::ToolDefinition;
use crate::messages_request::{messages_body, optional_entry, probe_body, text_block};
use crate::responses_request::responses_body;
use crate::text::{ascii_lowered, begins, trimmed};
use vstd::prelude::*;

verus! {

/// The first of two values that may be absent.
spec fn either(a: Option<JsonView>, b: Option<JsonView>) -> Option<JsonView> {
    match a {
        Some(v) => Some(v),
        None => b,
    }
}

proof fn lemma_field_of_joined(
    a: Seq<(Seq<char>, JsonView)>,
    b: Seq<(Seq<char>, JsonView)>,
    key: Seq<char>,
)
    ensures
        field(JsonView::Object(a + b), key) == either(
            field(JsonView::Object(a), key),
            field(JsonView::Object(b), key),
        ),
{
    lemma_entry_from(a, key, 0);
    lemma_entry_from(b, key, 0);
    lemma_entry_from(a + b, key, 0);
    match entry_from(a + b, key, 0) {
        Some(k) => {
            if k < a.len() {
                assert((a + b)[k] == a[k]);
            } else {
                assert((a + b)[k] == b[k - a.len()]);
            }
            match entry_from(a, key, 0) {
                Some(i) => {
                    assert((a + b)[i] == a[i]);
                },
                None => {
                    let i = entry_from(b, key, 0)->0;
                    assert((a + b)[i + a.len()] == b[i]);
                },
            }
        },
        None => {
            match entry_from(a, key, 0) {
                Some(i) => {
                    assert((a + b)[i] == a[i]);
                },
                None => {},
            }
            match entry_from(b, key, 0) {
                Some(i) => {
                    assert((a + b)[i + a.len()] == b[i]);
                },
                None => {},
            }
        },
    }
}

proof fn lemma_field_of_one(name: Seq<char>, value: JsonView, key: Seq<char>)
    ensures
        field(JsonView::Object(seq![(name, value)]), key) == (if key == name {
            Some(value)
        } else {
            None
        }),
        field(JsonView::Object(Seq::<(Seq<char>, JsonView)>::empty()), key) is None,
{
    lemma_entry_from(seq![(name, value)], key, 0);
    lemma_entry_from(Seq::<(Seq<char>, JsonView)>::empty(), key, 0);
    assert(seq![(name, value)][0].0 == name);
}

proof fn lemma_field_of_optional(name: Seq<char>, value: Option<JsonView>, key: Seq<char>)
    ensures
        field(JsonView::Object(optional_entry(name, value)), key) == (if key == name {
            value
        } else {
            None
        }),
{
    match value {
        Some(v) => {
            lemma_field_of_one(name, v, key);
        },
        None => {
            lemma_field_of_one(name, JsonView::Null, key);
        },
    }
}

/// A body on the Responses route holds what the turn holds, under the names of that
/// route: all of the input in its order, all of the tools, and nothing that the
/// turn does not have.
pub proof fn law_responses_body_holds_the_turn(
    model: Seq<char>,
    system: Seq<char>,
    input: Seq<JsonView>,
    tools: Seq<JsonView>,
    max_output_tokens: u32,
    effort: Option<Seq<char>>,
    key: Seq<char>,
)
    ensures
        ({
            let body = responses_body(model, system, input, tools, max_output_tokens, effort);
            &&& field(body, "model"@) == Some(JsonView::Str(model))
            &&& field(body, "instructions"@) == Some(JsonView::Str(system))
            &&& field(body, "input"@) == Some(JsonView::Array(input))
            &&& field(body, "stream"@) == Some(JsonView::Bool(true))
            &&& field(body, "store"@) == Some(JsonView::Bool(false))
            &&& field(body, "max_output_tokens"@) == Some(
                JsonView::UInt(max_output_tokens as u64),
            )
            &&& tools.len() > 0 ==> field(body, "tools"@) == Some(JsonView::Array(tools))
                && field(body, "tool_choice"@) == Some(JsonView::Str("auto"@))
            &&& tools.len() == 0 ==> field(body, "tools"@) is None && field(
                body,
                "tool_choice"@,
            ) is None
            &&& match effort {
                Some(effort) => field(body, "reasoning"@) matches Some(reasoning) && field(
                    reasoning,
                    "effort"@,
                ) == Some(JsonView::Str(effort)),
                None => field(body, "reasoning"@) is None,
            }
            &&& field(body, key) is Some ==> key == "model"@ || key == "instructions"@ || key
                == "input"@ || key == "stream"@ || key == "store"@ || key == "max_output_tokens"@
                || key == "tools"@ || key == "tool_choice"@ || key == "reasoning"@
        }),
{
    lemma_responses_names();
    lemma_responses_field(model, system, input, tools, max_output_tokens, effort, "model"@);
    lemma_responses_field(model, system, input, tools, max_output_tokens, effort, "instructions"@);
    lemma_responses_field(model, system, input, tools, max_output_tokens, effort, "input"@);
    lemma_responses_field(model, system, input, tools, max_output_tokens, effort, "stream"@);
    lemma_responses_field(model, system, input, tools, max_output_tokens, effort, "store"@);
    lemma_responses_field(
        model,
        system,
        input,
        tools,
        max_output_tokens,
        effort,
        "max_output_tokens"@,
    );
    lemma_responses_field(model, system, input, tools, max_output_tokens, effort, "tools"@);
    lemma_responses_field(model, system, input, tools, max_output_tokens, effort, "tool_choice"@);
    lemma_responses_field(model, system, input, tools, max_output_tokens, effort, "reasoning"@);
    lemma_responses_field(model, system, input, tools, max_output_tokens, effort, key);
    match effort {
        Some(effort) => {
            lemma_field_of_one("effort"@, JsonView::Str(effort), "effort"@);
        },
        None => {},
    }
}

/// The names of the fields differ.
proof fn lemma_responses_names()
    ensures
        "model"@.len() == 5 && "model"@[0] == 'm',
        "input"@.len() == 5 && "input"@[0] == 'i',
        "store"@.len() == 5 && "store"@[0] == 's',
        "tools"@.len() == 5 && "tools"@[0] == 't',
        "stream"@.len() == 6,
        "reasoning"@.len() == 9,
        "tool_choice"@.len() == 11,
        "instructions"@.len() == 12,
        "max_output_tokens"@.len() == 17,
{
    reveal_strlit("model");
    reveal_strlit("instructions");
    reveal_strlit("input");
    reveal_strlit("stream");
    reveal_strlit("store");
    reveal_strlit("max_output_tokens");
    reveal_strlit("tools");
    reveal_strlit("tool_choice");
    reveal_strlit("reasoning");
}

proof fn lemma_responses_field(
    model: Seq<char>,
    system: Seq<char>,
    input: Seq<JsonView>,
    tools: Seq<JsonView>,
    max_output_tokens: u32,
    effort: Option<Seq<char>>,
    key: Seq<char>,
)
    ensures
        field(responses_body(model, system, input, tools, max_output_tokens, effort), key) == (if key
            == "model"@ {
            Some(JsonView::Str(model))
        } else if key == "instructions"@ {
            Some(JsonView::Str(system))
        } else if key == "input"@ {
            Some(JsonView::Array(input))
        } else if key == "stream"@ {
            Some(JsonView::Bool(true))
        } else if key == "store"@ {
            Some(JsonView::Bool(false))
        } else if key == "max_output_tokens"@ {
            Some(JsonView::UInt(max_output_tokens as u64))
        } else if tools.len() > 0 && key == "tools"@ {
            Some(JsonView::Array(tools))
        } else if tools.len() > 0 && key == "tool_choice"@ {
            Some(JsonView::Str("auto"@))
        } else if effort is Some && key == "reasoning"@ {
            Some(JsonView::Object(seq![("effort"@, JsonView::Str(effort->0))]))
        } else {
            None
        }),
{
    lemma_responses_names();
    let fixed = seq![
        ("model"@, JsonView::Str(model)),
        ("instructions"@, JsonView::Str(system)),
        ("input"@, JsonView::Array(input)),
        ("stream"@, JsonView::Bool(true)),
        ("store"@, JsonView::Bool(false)),
        ("max_output_tokens"@, JsonView::UInt(max_output_tokens as u64)),
    ];
    let tooled = if tools.len() == 0 {
        seq![]
    } else {
        seq![("tools"@, JsonView::Array(tools)), ("tool_choice"@, JsonView::Str("auto"@))]
    };
    let reasoning = match effort {
        Some(effort) => Some(JsonView::Object(seq![("effort"@, JsonView::Str(effort))])),
        None => None,
    };
    lemma_field_of_joined(fixed + tooled, optional_entry("reasoning"@, reasoning), key);
    lemma_field_of_joined(fixed, tooled, key);
    lemma_field_of_optional("reasoning"@, reasoning, key);
    lemma_entry_from(fixed, key, 0);
    lemma_entry_from(tooled, key, 0);
    assert(fixed[0].0 == "model"@ && fixed[1].0 == "instructions"@ && fixed[2].0 == "input"@
        && fixed[3].0 == "stream"@ && fixed[4].0 == "store"@ && fixed[5].0 == "max_output_tokens"@);
    if tools.len() > 0 {
        assert(tooled[0].0 == "tools"@ && tooled[1].0 == "tool_choice"@);
    }
}

/// A body on the Messages route holds what the turn holds, under the names of that
/// route: all of the messages in their order, all of the tools, and nothing that
/// the turn does not have.
pub proof fn law_messages_body_holds_the_turn(
    model: Seq<char>,
    system: Option<JsonView>,
    messages: Seq<JsonView>,
    tools: Seq<JsonView>,
    max_tokens: u32,
    effort: Option<Seq<char>>,
    key: Seq<char>,
)
    ensures
        ({
            let body = messages_body(model, system, messages, tools, max_tokens, effort);
            &&& field(body, "model"@) == Some(JsonView::Str(model))
            &&& field(body, "max_tokens"@) == Some(JsonView::UInt(max_tokens as u64))
            &&& field(body, "system"@) == system
            &&& field(body, "messages"@) == Some(JsonView::Array(messages))
            &&& field(body, "stream"@) == Some(JsonView::Bool(true))
            &&& tools.len() > 0 ==> field(body, "tools"@) == Some(JsonView::Array(tools))
            &&& tools.len() == 0 ==> field(body, "tools"@) is None
            &&& match effort {
                Some(effort) => field(body, "output_config"@) matches Some(config) && field(
                    config,
                    "effort"@,
                ) == Some(JsonView::Str(effort)),
                None => field(body, "output_config"@) is None,
            }
            &&& field(body, key) is Some ==> key == "model"@ || key == "max_tokens"@ || key
                == "system"@ || key == "messages"@ || key == "stream"@ || key == "tools"@ || key
                == "output_config"@
        }),
{
    lemma_messages_names();
    lemma_messages_field(model, system, messages, tools, max_tokens, effort, "model"@);
    lemma_messages_field(model, system, messages, tools, max_tokens, effort, "max_tokens"@);
    lemma_messages_field(model, system, messages, tools, max_tokens, effort, "system"@);
    lemma_messages_field(model, system, messages, tools, max_tokens, effort, "messages"@);
    lemma_messages_field(model, system, messages, tools, max_tokens, effort, "stream"@);
    lemma_messages_field(model, system, messages, tools, max_tokens, effort, "tools"@);
    lemma_messages_field(model, system, messages, tools, max_tokens, effort, "output_config"@);
    lemma_messages_field(model, system, messages, tools, max_tokens, effort, key);
    match effort {
        Some(effort) => {
            lemma_field_of_one("effort"@, JsonView::Str(effort), "effort"@);
        },
        None => {},
    }
}

/// The names of the fields differ.
proof fn lemma_messages_names()
    ensures
        "model"@.len() == 5 && "model"@[0] == 'm',
        "tools"@.len() == 5 && "tools"@[0] == 't',
        "system"@.len() == 6 && "system"@[1] == 'y',
        "stream"@.len() == 6 && "stream"@[1] == 't',
        "messages"@.len() == 8,
        "max_tokens"@.len() == 10,
        "output_config"@.len() == 13,
{
    reveal_strlit("model");
    reveal_strlit("max_tokens");
    reveal_strlit("system");
    reveal_strlit("messages");
    reveal_strlit("tools");
    reveal_strlit("output_config");
    reveal_strlit("stream");
}

proof fn lemma_messages_field(
    model: Seq<char>,
    system: Option<JsonView>,
    messages: Seq<JsonView>,
    tools: Seq<JsonView>,
    max_tokens: u32,
    effort: Option<Seq<char>>,
    key: Seq<char>,
)
    ensures
        field(messages_body(model, system, messages, tools, max_tokens, effort), key) == (if key
            == "model"@ {
            Some(JsonView::Str(model))
        } else if key == "max_tokens"@ {
            Some(JsonView::UInt(max_tokens as u64))
        } else if key == "system"@ {
            system
        } else if key == "messages"@ {
            Some(JsonView::Array(messages))
        } else if key == "stream"@ {
            Some(JsonView::Bool(true))
        } else if tools.len() > 0 && key == "tools"@ {
            Some(JsonView::Array(tools))
        } else if effort is Some && key == "output_config"@ {
            Some(JsonView::Object(seq![("effort"@, JsonView::Str(effort->0))]))
        } else {
            None
        }),
{
    lemma_messages_names();
    let first = seq![
        ("model"@, JsonView::Str(model)),
        ("max_tokens"@, JsonView::UInt(max_tokens as u64)),
    ];
    let a = optional_entry("system"@, system);
    let b = seq![("messages"@, JsonView::Array(messages))];
    let listed = if tools.len() == 0 {
        None
    } else {
        Some(JsonView::Array(tools))
    };
    let c = optional_entry("tools"@, listed);
    let config = match effort {
        Some(effort) => Some(JsonView::Object(seq![("effort"@, JsonView::Str(effort))])),
        None => None,
    };
    let d = optional_entry("output_config"@, config);
    let e = seq![("stream"@, JsonView::Bool(true))];
    lemma_field_of_joined(first + a + b + c + d, e, key);
    lemma_field_of_joined(first + a + b + c, d, key);
    lemma_field_of_joined(first + a + b, c, key);
    lemma_field_of_joined(first + a, b, key);
    lemma_field_of_joined(first, a, key);
    lemma_field_of_optional("system"@, system, key);
    lemma_field_of_one("messages"@, JsonView::Array(messages), key);
    lemma_field_of_optional("tools"@, listed, key);
    lemma_field_of_optional("output_config"@, config, key);
    lemma_field_of_one("stream"@, JsonView::Bool(true), key);
    lemma_entry_from(first, key, 0);
    assert(first[0].0 == "model"@ && first[1].0 == "max_tokens"@);
}

/// A request with one user turn says exactly that turn: one message of the user
/// with the prompt as its only text, the system prompt where there is one, and
/// neither tools nor an effort.
pub proof fn law_probe_asks_the_prompt(
    model: Seq<char>,
    system: Seq<char>,
    prompt: Seq<char>,
    max_tokens: u32,
)
    ensures
        ({
            let body = probe_body(model, system, prompt, max_tokens);
            &&& field(body, "model"@) == Some(JsonView::Str(model))
            &&& field(body, "max_tokens"@) == Some(JsonView::UInt(max_tokens as u64))
            &&& field(body, "tools"@) is None
            &&& field(body, "output_config"@) is None
            &&& system.len() == 0 ==> field(body, "system"@) is None
            &&& system.len() > 0 ==> {
                &&& field(body, "system"@) matches Some(JsonView::Array(blocks))
                &&& blocks.len() == 1
                &&& field(blocks[0], "type"@) == Some(JsonView::Str("text"@))
                &&& field(blocks[0], "text"@) == Some(JsonView::Str(system))
            }
            &&& field(body, "messages"@) matches Some(JsonView::Array(messages))
            &&& messages.len() == 1
            &&& field(messages[0], "role"@) == Some(JsonView::Str("user"@))
            &&& field(messages[0], "content"@) matches Some(JsonView::Array(blocks))
            &&& blocks.len() == 1
            &&& field(blocks[0], "type"@) == Some(JsonView::Str("text"@))
            &&& field(blocks[0], "text"@) == Some(JsonView::Str(prompt))
        }),
{
    reveal_strlit("role");
    reveal_strlit("content");
    reveal_strlit("type");
    reveal_strlit("text");
    assert("type"@[1] == 'y' && "text"@[1] == 'e');
    assert("role"@.len() == 4 && "content"@.len() == 7);
    let said = if system.len() == 0 {
        None
    } else {
        Some(JsonView::Array(seq![text_block(system)]))
    };
    let message = JsonView::Object(
        seq![
            ("role"@, JsonView::Str("user"@)),
            ("content"@, JsonView::Array(seq![text_block(prompt)])),
        ],
    );
    law_messages_body_holds_the_turn(
        model,
        said,
        seq![message],
        seq![],
        max_tokens,
        None,
        "model"@,
    );
    lemma_two(
        "role"@,
        JsonView::Str("user"@),
        "content"@,
        JsonView::Array(seq![text_block(prompt)]),
    );
    lemma_two("type"@, JsonView::Str("text"@), "text"@, JsonView::Str(prompt));
    lemma_two("type"@, JsonView::Str("text"@), "text"@, JsonView::Str(system));
}

proof fn lemma_two(a: Seq<char>, v: JsonView, b: Seq<char>, w: JsonView)
    requires
        a != b,
    ensures
        field(JsonView::Object(seq![(a, v), (b, w)]), a) == Some(v),
        field(JsonView::Object(seq![(a, v), (b, w)]), b) == Some(w),
{
    let entries = seq![(a, v), (b, w)];
    lemma_entry_from(entries, a, 0);
    lemma_entry_from(entries, b, 0);
    assert(entries[0].0 == a && entries[1].0 == b);
}

proof fn lemma_three(
    a: Seq<char>,
    v: JsonView,
    b: Seq<char>,
    w: JsonView,
    c: Seq<char>,
    x: JsonView,
    key: Seq<char>,
)
    requires
        a != b,
        a != c,
        b != c,
    ensures
        field(JsonView::Object(seq![(a, v), (b, w), (c, x)]), key) == (if key == a {
            Some(v)
        } else if key == b {
            Some(w)
        } else if key == c {
            Some(x)
        } else {
            None
        }),
{
    let entries = seq![(a, v), (b, w), (c, x)];
    lemma_entry_from(entries, key, 0);
    assert(entries[0].0 == a && entries[1].0 == b && entries[2].0 == c);
}

/// A tool reaches the chat route as a function with its own name, description and
/// schema.
pub proof fn law_tool_keeps_its_parts(tool: ToolDefinition)
    ensures
        ({
            let json = tool_json(tool);
            &&& field(json, "type"@) == Some(JsonView::Str("function"@))
            &&& field(json, "function"@) matches Some(function)
            &&& field(function, "name"@) == Some(JsonView::Str(tool.name@))
            &&& field(function, "description"@) == Some(JsonView::Str(tool.description@))
            &&& field(function, "parameters"@) == Some(tool.input_schema@)
        }),
{
    reveal_strlit("type");
    reveal_strlit("function");
    reveal_strlit("name");
    reveal_strlit("description");
    reveal_strlit("parameters");
    assert("type"@.len() == 4 && "function"@.len() == 8 && "name"@.len() == 4
        && "description"@.len() == 11 && "parameters"@.len() == 10);
    let a = JsonView::Str(tool.name@);
    let b = JsonView::Str(tool.description@);
    let c = tool.input_schema@;
    lemma_three("name"@, a, "description"@, b, "parameters"@, c, "name"@);
    lemma_three("name"@, a, "description"@, b, "parameters"@, c, "description"@);
    lemma_three("name"@, a, "description"@, b, "parameters"@, c, "parameters"@);
    lemma_two(
        "type"@,
        JsonView::Str("function"@),
        "function"@,
        JsonView::Object(seq![("name"@, a), ("description"@, b), ("parameters"@, c)]),
    );
}

/// The limit of the output goes by the name that the model's family takes: models
/// whose id begins with `gpt-5`, whatever the case of its letters and the white
/// space around it, take `max_completion_tokens`, all others `max_tokens`.
pub proof fn law_limit_goes_by_the_family(model: Seq<char>)
    ensures
        begins(ascii_lowered(trimmed(model)), "gpt-5"@) ==> max_token_key(model)
            == "max_completion_tokens"@,
        !begins(ascii_lowered(trimmed(model)), "gpt-5"@) ==> max_token_key(model) == "max_tokens"@,
{
}

/// The names of the fields differ.
proof fn lemma_chat_names(model: Seq<char>)
    ensures
        "model"@.len() == 5 && "model"@[0] == 'm',
        "tools"@.len() == 5 && "tools"@[0] == 't',
        "stream"@.len() == 6,
        "messages"@.len() == 8,
        "max_tokens"@.len() == 10,
        "max_completion_tokens"@.len() == 21,
        "reasoning_effort"@.len() == 16,
        max_token_key(model) == "max_tokens"@ || max_token_key(model)
            == "max_completion_tokens"@,
{
    reveal_strlit("model");
    reveal_strlit("messages");
    reveal_strlit("stream");
    reveal_strlit("tools");
    reveal_strlit("max_tokens");
    reveal_strlit("max_completion_tokens");
    reveal_strlit("reasoning_effort");
}

/// A body on the chat route holds what the turn holds, under the names of that
/// route: all of the messages in their order, all of the tools, and nothing that
/// the turn does not have.
pub proof fn law_chat_body_holds_the_turn(
    model: Seq<char>,
    messages: Seq<JsonView>,
    tools: Seq<JsonView>,
    max_tokens: u32,
    effort: Option<Seq<char>>,
    key: Seq<char>,
)
    ensures
        ({
            let body = chat_body(model, messages, tools, max_tokens, effort);
            &&& field(body, "model"@) == Some(JsonView::Str(model))
            &&& field(body, "messages"@) == Some(JsonView::Array(messages))
            &&& field(body, "stream"@) == Some(JsonView::Bool(true))
            &&& field(
                body,
                if begins(ascii_lowered(trimmed(model)), "gpt-5"@) {
                    "max_completion_tokens"@
                } else {
                    "max_tokens"@
                },
            ) == Some(JsonView::UInt(max_tokens as u64))
            &&& tools.len() > 0 ==> field(body, "tools"@) == Some(JsonView::Array(tools))
            &&& tools.len() == 0 ==> field(body, "tools"@) is None
            &&& field(body, "reasoning_effort"@) == (match effort {
                Some(effort) => Some(JsonView::Str(effort)),
                None => None,
            })
            &&& field(body, key) is Some ==> key == "model"@ || key == "messages"@ || key
                == "stream"@ || key == "tools"@ || key == "reasoning_effort"@ || key == (if begins(
                ascii_lowered(trimmed(model)),
                "gpt-5"@,
            ) {
                "max_completion_tokens"@
            } else {
                "max_tokens"@
            })
        }),
{
    lemma_chat_names(model);
    lemma_chat_field(model, messages, tools, max_tokens, effort, "model"@);
    lemma_chat_field(model, messages, tools, max_tokens, effort, "messages"@);
    lemma_chat_field(model, messages, tools, max_tokens, effort, "stream"@);
    lemma_chat_field(model, messages, tools, max_tokens, effort, max_token_key(model));
    lemma_chat_field(model, messages, tools, max_tokens, effort, "tools"@);
    lemma_chat_field(model, messages, tools, max_tokens, effort, "reasoning_effort"@);
    lemma_chat_field(model, messages, tools, max_tokens, effort, key);
}

proof fn lemma_chat_field(
    model: Seq<char>,
    messages: Seq<JsonView>,
    tools: Seq<JsonView>,
    max_tokens: u32,
    effort: Option<Seq<char>>,
    key: Seq<char>,
)
    ensures
        field(chat_body(model, messages, tools, max_tokens, effort), key) == (if tools.len() > 0
            && key == "tools"@ {
            Some(JsonView::Array(tools))
        } else if effort is Some && key == "reasoning_effort"@ {
            Some(JsonView::Str(effort->0))
        } else if key == max_token_key(model) {
            Some(JsonView::UInt(max_tokens as u64))
        } else if key == "model"@ {
            Some(JsonView::Str(model))
        } else if key == "messages"@ {
            Some(JsonView::Array(messages))
        } else if key == "stream"@ {
            Some(JsonView::Bool(true))
        } else {
            None
        }),
{
    lemma_chat_names(model);
    let a = JsonView::Str(model);
    let b = JsonView::Array(messages);
    let c = JsonView::Bool(true);
    lemma_three("model"@, a, "messages"@, b, "stream"@, c, key);
    let plain = JsonView::Object(seq![("model"@, a), ("messages"@, b), ("stream"@, c)]);
    lemma_limited_field(plain, model, max_tokens, effort, key);
    let limited = with_effort(
        with_field(plain, max_token_key(model), JsonView::UInt(max_tokens as u64)),
        effort,
    );
    law_field_after_write(limited, "tools"@, JsonView::Array(tools), key);
}

proof fn lemma_limited_field(
    plain: JsonView,
    model: Seq<char>,
    max_tokens: u32,
    effort: Option<Seq<char>>,
    key: Seq<char>,
)
    requires
        plain is Object,
    ensures
        ({
            let limited = with_effort(
                with_field(plain, max_token_key(model), JsonView::UInt(max_tokens as u64)),
                effort,
            );
            &&& limited is Object
            &&& field(limited, key) == (if effort is Some && key == "reasoning_effort"@ {
                Some(JsonView::Str(effort->0))
            } else if key == max_token_key(model) {
                Some(JsonView::UInt(max_tokens as u64))
            } else {
                field(plain, key)
            })
        }),
{
    let count = JsonView::UInt(max_tokens as u64);
    law_field_after_write(plain, max_token_key(model), count, key);
    match effort {
        Some(effort) => {
            law_field_after_write(
                with_field(plain, max_token_key(model), count),
                "reasoning_effort"@,
                JsonView::Str(effort),
                key,
            );
        },
        None => {},
    }
}

/// What identifies a turn in the logs holds its model, all of its messages and all
/// of its tools, its limit and its effort.
pub proof fn law_logged_turn_is_whole(
    model: Seq<char>,
    messages: Seq<JsonView>,
    tools: Seq<JsonView>,
    max_tokens: u32,
    effort: Option<Seq<char>>,
)
    ensures
        ({
            let body = canonical_body(model, messages, tools, max_tokens, effort);
            &&& field(body, "model"@) == Some(JsonView::Str(model))
            &&& field(body, "messages"@) == Some(JsonView::Array(messages))
            &&& field(body, "tools"@) == Some(JsonView::Array(tools))
            &&& field(
                body,
                if begins(ascii_lowered(trimmed(model)), "gpt-5"@) {
                    "max_completion_tokens"@
                } else {
                    "max_tokens"@
                },
            ) == Some(JsonView::UInt(max_tokens as u64))
            &&& field(body, "reasoning_effort"@) == (match effort {
                Some(effort) => Some(JsonView::Str(effort)),
                None => None,
            })
        }),
{
    lemma_chat_names(model);
    let a = JsonView::Str(model);
    let b = JsonView::Array(messages);
    let c = JsonView::Array(tools);
    let plain = JsonView::Object(seq![("model"@, a), ("messages"@, b), ("tools"@, c)]);
    lemma_three("model"@, a, "messages"@, b, "tools"@, c, "model"@);
    lemma_three("model"@, a, "messages"@, b, "tools"@, c, "messages"@);
    lemma_three("model"@, a, "messages"@, b, "tools"@, c, "tools"@);
    lemma_three("model"@, a, "messages"@, b, "tools"@, c, "reasoning_effort"@);
    lemma_limited_field(plain, model, max_tokens, effort, "model"@);
    lemma_limited_field(plain, model, max_tokens, effort, "messages"@);
    lemma_limited_field(plain, model, max_tokens, effort, "tools"@);
    lemma_limited_field(plain, model, max_tokens, effort, max_token_key(model));
    lemma_limited_field(plain, model, max_tokens, effort, "reasoning_effort"@);
}

/// The models that are known without a catalog are twelve, the default first: six of
/// Anthropic's and six of OpenAI's.
pub proof fn law_known_models_are_twelve(family: Seq<char>, model: Seq<char>)
    ensures
        ({
            let known = crate::chat_request::static_models(family);
            &&& known.len() == 12
            &&& known[0] == crate::chat_request::default_id(family)
            &&& crate::chat_request::default_id(family) == family + "-sonnet-4.6"@
            &&& known.contains(model) <==> (model == family + "-sonnet-4.6"@ || model == family
                + "-sonnet-4.5"@ || model == family + "-haiku-4.5"@ || model == family
                + "-opus-4.6"@ || model == family + "-opus-4.5"@ || model == family + "-sonnet-4"@
                || model == "gpt-5.4"@ || model == "gpt-5.3-codex"@ || model == "gpt-5.1-codex"@
                || model == "gpt-5.1"@ || model == "gpt-5-mini"@ || model == "gpt-4.1"@)
        }),
{
    let known = crate::chat_request::static_models(family);
    assert(known[1] == family + "-sonnet-4.5"@ && known[2] == family + "-haiku-4.5"@ && known[3]
        == family + "-opus-4.6"@ && known[4] == family + "-opus-4.5"@ && known[5] == family
        + "-sonnet-4"@);
    assert(known[6] == "gpt-5.4"@ && known[7] == "gpt-5.3-codex"@ && known[8] == "gpt-5.1-codex"@
        && known[9] == "gpt-5.1"@ && known[10] == "gpt-5-mini"@ && known[11] == "gpt-4.1"@);
}

} // verus!
