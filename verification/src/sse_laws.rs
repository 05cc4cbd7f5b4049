//! What holds of every event of the Messages API: what the consumer is sent for
//! it, and what the decoder remembers.

use crate::json::{field, parsed_json, string_in, JsonView};
use crate::message::{ConnectionPhase, Event, EventView};
use crate::sse::{base_model, payload_of, payload_step, SseStateView, SseView};
use crate::text::{ascii_lowered, finishes};
use vstd::prelude::*;

verus! {

/// What an event does: the state after it, and what the consumer is sent.
pub open spec fn handled(
    st: SseStateView,
    event: SseView,
    is_oauth: bool,
    oauth: Map<Seq<char>, String>,
) -> (SseStateView, Seq<EventView>) {
    payload_step(st, payload_of(event), is_oauth, oauth)
}

/// The object that a value holds under a key.
pub open spec fn object_in(value: JsonView, key: Seq<char>) -> Option<JsonView> {
    match field(value, key) {
        Some(JsonView::Object(entries)) => Some(JsonView::Object(entries)),
        _ => None,
    }
}

/// The text of an object's field, where the object is of a type.
pub open spec fn typed_text(
    object: Option<JsonView>,
    kind: Seq<char>,
    key: Seq<char>,
) -> Option<Seq<char>> {
    match object {
        Some(object) => if string_in(field(object, "type"@)) == Some(kind) {
            string_in(field(object, key))
        } else {
            None
        },
        None => None,
    }
}

/// The names of the events differ.
proof fn lemma_event_names()
    ensures
        "content_block_stop"@.len() == 18,
        "content_block_delta"@.len() == 19 && "content_block_delta"@[14] == 'd',
        "content_block_start"@.len() == 19 && "content_block_start"@[14] == 's',
        "message_start"@.len() == 13 && "message_start"@[8] == 's',
        "message_delta"@.len() == 13 && "message_delta"@[8] == 'd',
        "message_stop"@.len() == 12,
        "ping"@.len() == 4,
        "error"@.len() == 5,
{
    reveal_strlit("content_block_stop");
    reveal_strlit("content_block_delta");
    reveal_strlit("content_block_start");
    reveal_strlit("message_start");
    reveal_strlit("message_delta");
    reveal_strlit("message_stop");
    reveal_strlit("ping");
    reveal_strlit("error");
}

/// The kinds of deltas and blocks differ.
proof fn lemma_delta_names()
    ensures
        "text_delta"@.len() == 10,
        "input_json_delta"@.len() == 16,
        "thinking_delta"@.len() == 14,
        "signature_delta"@.len() == 15,
        "thinking"@.len() == 8 && "thinking"@[1] == 'h',
        "redacted_thinking"@.len() == 17,
        "tool_use"@.len() == 8 && "tool_use"@[1] == 'o',
{
    reveal_strlit("text_delta");
    reveal_strlit("input_json_delta");
    reveal_strlit("thinking_delta");
    reveal_strlit("signature_delta");
    reveal_strlit("thinking");
    reveal_strlit("redacted_thinking");
    reveal_strlit("tool_use");
}

/// A delta reaches the consumer as what it is: text as text, thinking as thinking,
/// a signature as a signature, and input as input, each as it stands. Anything else
/// is passed over. Input is added to the tool call that is open, and nothing else
/// changes.
pub proof fn law_deltas_keep_their_kind(
    st: SseStateView,
    event: SseView,
    value: JsonView,
    is_oauth: bool,
    oauth: Map<Seq<char>, String>,
)
    requires
        event.event_type == "content_block_delta"@,
        parsed_json(event.data) == Some(value),
    ensures
        ({
            let (after, events) = handled(st, event, is_oauth, oauth);
            let delta = object_in(value, "delta"@);
            let text = typed_text(delta, "text_delta"@, "text"@);
            let thinking = typed_text(delta, "thinking_delta"@, "thinking"@);
            let signature = typed_text(delta, "signature_delta"@, "signature"@);
            let input = typed_text(delta, "input_json_delta"@, "partial_json"@);
            &&& text matches Some(t) ==> events == seq![Event::TextDelta(t)] && after == st
            &&& thinking matches Some(t) ==> events == seq![Event::ThinkingDelta(t)] && after == st
            &&& signature matches Some(t) ==> events == seq![Event::ThinkingSignatureDelta(t)]
                && after == st
            &&& input matches Some(t) ==> {
                &&& events == seq![Event::ToolInputDelta(t)]
                &&& after == (SseStateView {
                    tool: match st.tool {
                        Some(sofar) => Some(sofar + t),
                        None => None,
                    },
                    ..st
                })
            }
            &&& text is None && thinking is None && signature is None && input is None
                ==> events.len() == 0 && after == st
        }),
{
    lemma_event_names();
    lemma_delta_names();
}

/// The consumer is sent text for a delta only where the delta is of the type for
/// text and that text stands in it, and likewise for thinking, signatures and
/// input.
pub proof fn law_deltas_make_nothing_up(
    st: SseStateView,
    event: SseView,
    value: JsonView,
    is_oauth: bool,
    oauth: Map<Seq<char>, String>,
    i: int,
)
    requires
        event.event_type == "content_block_delta"@,
        parsed_json(event.data) == Some(value),
        0 <= i < handled(st, event, is_oauth, oauth).1.len(),
    ensures
        ({
            let sent = handled(st, event, is_oauth, oauth).1[i];
            let delta = object_in(value, "delta"@);
            match sent {
                Event::TextDelta(t) => typed_text(delta, "text_delta"@, "text"@) == Some(t),
                Event::ThinkingDelta(t) => typed_text(delta, "thinking_delta"@, "thinking"@)
                    == Some(t),
                Event::ThinkingSignatureDelta(t) => typed_text(
                    delta,
                    "signature_delta"@,
                    "signature"@,
                ) == Some(t),
                Event::ToolInputDelta(t) => typed_text(
                    delta,
                    "input_json_delta"@,
                    "partial_json"@,
                ) == Some(t),
                _ => false,
            }
        }),
{
    law_deltas_keep_their_kind(st, event, value, is_oauth, oauth);
}

/// A block begins as what it is: a thinking block with what it already holds, a
/// redacted one, a tool call with its id and its name. A text block, and any other
/// kind, begins without a word.
pub proof fn law_blocks_begin_as_they_are(
    st: SseStateView,
    event: SseView,
    value: JsonView,
    is_oauth: bool,
    oauth: Map<Seq<char>, String>,
)
    requires
        event.event_type == "content_block_start"@,
        parsed_json(event.data) == Some(value),
    ensures
        ({
            let (after, events) = handled(st, event, is_oauth, oauth);
            let block = object_in(value, "content_block"@);
            let kind = match block {
                Some(block) => string_in(field(block, "type"@)),
                None => None,
            };
            let id = typed_text(block, "tool_use"@, "id"@);
            let name = typed_text(block, "tool_use"@, "name"@);
            let thought = typed_text(block, "thinking"@, "thinking"@);
            &&& id is Some && name is Some ==> {
                &&& events == seq![
                    Event::ToolUseStart {
                        id: id->0,
                        name: if is_oauth && oauth.contains_key(name->0) {
                            oauth[name->0]@
                        } else {
                            name->0
                        },
                    },
                ]
                &&& after == (SseStateView { tool: Some(seq![]), ..st })
            }
            &&& thought matches Some(t) ==> {
                &&& after == (SseStateView { thinking: true, ..st })
                &&& t.len() == 0 ==> events == seq![Event::<Seq<char>>::ThinkingStart]
                &&& t.len() > 0 ==> events == seq![
                    Event::ThinkingStart,
                    Event::ThinkingDelta(t),
                ]
            }
            &&& kind == Some("thinking"@) && field(block->0, "thinking"@) is None ==> {
                &&& after == (SseStateView { thinking: true, ..st })
                &&& events == seq![Event::<Seq<char>>::ThinkingStart]
            }
            &&& kind == Some("redacted_thinking"@) ==> {
                &&& after == (SseStateView { thinking: true, ..st })
                &&& events == seq![Event::<Seq<char>>::ThinkingStart]
            }
            &&& kind != Some("thinking"@) && kind != Some("redacted_thinking"@) && kind != Some(
                "tool_use"@,
            ) ==> events.len() == 0 && after == st
            &&& kind == Some("tool_use"@) && (id is None || name is None) ==> events.len() == 0
                && after == st
        }),
{
    lemma_event_names();
    lemma_delta_names();
}

/// The end of a block, a ping and an error say the same whatever their data is: the
/// end closes what is open, a tool call before a thinking block; a ping tells that
/// the connection lives; an error is reported with its data as its message.
pub proof fn law_other_events_speak_for_themselves(
    st: SseStateView,
    data: Seq<char>,
    is_oauth: bool,
    oauth: Map<Seq<char>, String>,
)
    ensures
        ({
            let (after, events) = handled(
                st,
                SseView { event_type: "content_block_stop"@, data },
                is_oauth,
                oauth,
            );
            &&& st.tool is Some ==> events == seq![Event::<Seq<char>>::ToolUseEnd] && after == (
            SseStateView { tool: None, ..st })
            &&& st.tool is None && st.thinking ==> events == seq![
                Event::<Seq<char>>::ThinkingEnd,
            ] && after == (SseStateView { thinking: false, ..st })
            &&& st.tool is None && !st.thinking ==> events.len() == 0 && after == st
        }),
        handled(st, SseView { event_type: "ping"@, data }, is_oauth, oauth) == (
            st,
            seq![
                Event::<Seq<char>>::ConnectionPhase { phase: ConnectionPhase::Streaming },
            ],
        ),
        handled(st, SseView { event_type: "error"@, data }, is_oauth, oauth) == (
            st,
            seq![Event::Error { message: data, retry_after_secs: None }],
        ),
        handled(st, SseView { event_type: "message_stop"@, data }, is_oauth, oauth) == (
            st,
            Seq::<EventView>::empty(),
        ),
{
    lemma_event_names();
}

/// The count that an object holds under a key, null counting as none. `None`: what
/// stands there is no count.
pub open spec fn count_or_none(object: JsonView, key: Seq<char>) -> Option<Option<u64>> {
    match field(object, key) {
        None | Some(JsonView::Null) => Some(None),
        Some(JsonView::UInt(n)) => Some(Some(n)),
        _ => None,
    }
}

/// The end of a message: its stop reason is passed on as it stands, and its count
/// of output tokens is remembered; without a report the old count stays.
pub proof fn law_message_end_keeps_its_reason(
    st: SseStateView,
    event: SseView,
    value: JsonView,
    is_oauth: bool,
    oauth: Map<Seq<char>, String>,
)
    requires
        event.event_type == "message_delta"@,
        parsed_json(event.data) == Some(value),
    ensures
        ({
            let (after, events) = handled(st, event, is_oauth, oauth);
            let delta = object_in(value, "delta"@);
            let usage = field(value, "usage"@);
            let reason = match delta {
                Some(delta) => field(delta, "stop_reason"@),
                None => None,
            };
            let well_formed = delta is Some && (reason is None || reason == Some(JsonView::Null)
                || reason matches Some(JsonView::Str(_))) && (usage is None || usage == Some(
                JsonView::Null,
            ) || (usage matches Some(JsonView::Object(_)) && count_or_none(
                usage->0,
                "output_tokens"@,
            ) is Some));
            &&& !well_formed ==> events.len() == 0 && after == st
            &&& well_formed ==> {
                &&& reason matches Some(JsonView::Str(t)) ==> events == seq![
                    Event::MessageEnd { stop_reason: Some(t) },
                ]
                &&& !(reason matches Some(JsonView::Str(_))) ==> events.len() == 0
                &&& after == (SseStateView {
                    output_tokens: if usage matches Some(JsonView::Object(_)) {
                        count_or_none(usage->0, "output_tokens"@)->0
                    } else {
                        st.output_tokens
                    },
                    ..st
                })
            }
        }),
{
    lemma_event_names();
}

/// The start of a message: the token counts of its report are remembered, and a
/// model other than the one that was asked for is reported once, the long-context
/// suffix and the case of letters aside.
pub proof fn law_message_start_is_noted(
    st: SseStateView,
    event: SseView,
    value: JsonView,
    message: JsonView,
    is_oauth: bool,
    oauth: Map<Seq<char>, String>,
)
    requires
        event.event_type == "message_start"@,
        parsed_json(event.data) == Some(value),
        object_in(value, "message"@) == Some(message),
    ensures
        ({
            let (after, events) = handled(st, event, is_oauth, oauth);
            let usage = object_in(message, "usage"@);
            let model = string_in(field(message, "model"@));
            let counts = match usage {
                Some(usage) => (
                    count_or_none(usage, "input_tokens"@),
                    count_or_none(usage, "cache_read_input_tokens"@),
                    count_or_none(usage, "cache_creation_input_tokens"@),
                ),
                None => (None, None, None),
            };
            let other = model matches Some(served) && ascii_lowered(base_model(served))
                != st.requested && st.requested.len() > 0 && !st.warned;
            model is Some && counts.0 is Some && counts.1 is Some && counts.2 is Some ==> {
                &&& after == (SseStateView {
                    input_tokens: counts.0->0,
                    cache_read_input_tokens: counts.1->0,
                    cache_creation_input_tokens: counts.2->0,
                    warned: st.warned || other,
                    ..st
                })
                &&& other ==> events == seq![
                    Event::StatusDetail {
                        detail: "⚠ Anthropic served '"@ + ascii_lowered(base_model(model->0))
                            + "' instead of requested '"@ + st.requested
                            + "' (requested model unavailable)"@,
                    },
                ]
                &&& !other ==> events.len() == 0
            }
        }),
{
    lemma_event_names();
}

/// The long-context suffix is no part of a model's id, and nothing else is lost.
pub proof fn law_suffix_is_no_part_of_the_id(model: Seq<char>)
    ensures
        base_model(model + "[1m]"@) == model,
        !finishes(model, "[1m]"@) ==> base_model(model) == model,
{
    reveal_strlit("[1m]");
    let long = model + "[1m]"@;
    assert(long.subrange(long.len() - 4, long.len() as int) =~= "[1m]"@);
    assert(long.take(long.len() - 4) =~= model);
}

/// An event whose data is no JSON, or of a kind that is not known, is passed over.
pub proof fn law_strange_events_are_passed_over(
    st: SseStateView,
    event: SseView,
    is_oauth: bool,
    oauth: Map<Seq<char>, String>,
)
    requires
        event.event_type != "content_block_stop"@,
        event.event_type != "ping"@,
        event.event_type != "error"@,
        parsed_json(event.data) is None || (event.event_type != "message_start"@
            && event.event_type != "message_delta"@ && event.event_type != "content_block_start"@
            && event.event_type != "content_block_delta"@),
    ensures
        handled(st, event, is_oauth, oauth) == (st, Seq::<EventView>::empty()),
{
}

} // verus!
