//! What holds of every call that a turn makes: the body that is sent, the steps of the
//! request and the reading of the reply.

use crate::chat_messages::build_messages;
use crate::content_laws::{
    begin_of, law_entries_are_sent_under_their_role, law_every_entry_is_sent,
    law_user_messages_are_sent, law_user_texts_are_kept, no_image, prompt_len, texts_said,
};
use crate::context_limits::ContextLimits;
use crate::copilot_catalog::CopilotEndpoint;
use crate::json::{field, json_views, parsed_json, Json, JsonView};
use crate::keyed::TextMap;
use crate::message::{event_views, message_views, ChatMessage, Event, StreamEvent};
use crate::provider::SharedCatalog;
use crate::request_laws::{
    law_chat_body_holds_the_turn, law_messages_body_holds_the_turn,
    law_responses_body_holds_the_turn,
};
use crate::sse::{process_sse_event, SseEvent, SseStreamState};
use crate::sse_laws::{law_deltas_keep_their_kind, object_in, typed_text};
use crate::stream::{Next, Read, Step};
use crate::stream_chat::{value_step, ChatStream};
use crate::stream_laws::{law_values_are_served_whole, of_kind, served_by_value, Kind};
use crate::stream_messages::MessagesStream;
use crate::stream_request::{ActionView, Happened, RequestStep, StreamRequest, Surroundings};
use crate::stream_responses::ResponsesStream;
use crate::text::occurs;
use crate::turn_laws::law_every_attempt_asks_the_catalog;
use vstd::prelude::*;

verus! {

/// Each route's body holds the whole turn: the model, everything that was said and
/// every tool.
pub proof fn law_sent_bodies_hold_the_turn(
    model: &str,
    system: &str,
    said: &Vec<Json>,
    tools: &Vec<Json>,
    limit: u32,
    effort: Option<&str>,
    prompt: Option<&Json>,
    responses: Json,
    messages: Json,
    chat: Json,
)
    requires
        call_ensures(
            crate::responses_request::build_request,
            (model, system, said, tools, limit, effort),
            responses,
        ),
        call_ensures(
            crate::messages_request::build_request,
            (model, prompt, said, tools, limit, effort),
            messages,
        ),
        call_ensures(
            crate::chat_request::build_request,
            (model, said, tools, limit, effort),
            chat,
        ),
    ensures
        field(responses@, "input"@) == Some(JsonView::Array(json_views(said@))),
        field(responses@, "model"@) == Some(JsonView::Str(model@)),
        field(responses@, "instructions"@) == Some(JsonView::Str(system@)),
        tools@.len() > 0 ==> field(responses@, "tools"@) == Some(
            JsonView::Array(json_views(tools@)),
        ),
        field(messages@, "messages"@) == Some(JsonView::Array(json_views(said@))),
        field(messages@, "model"@) == Some(JsonView::Str(model@)),
        tools@.len() > 0 ==> field(messages@, "tools"@) == Some(JsonView::Array(json_views(tools@))),
        field(chat@, "messages"@) == Some(JsonView::Array(json_views(said@))),
        field(chat@, "model"@) == Some(JsonView::Str(model@)),
        tools@.len() > 0 ==> field(chat@, "tools"@) == Some(JsonView::Array(json_views(tools@))),
{
    let chosen = crate::copilot_enterprise::str_option(effort);
    assert(json_views(tools@).len() == tools@.len());
    law_responses_body_holds_the_turn(
        model@,
        system@,
        json_views(said@),
        json_views(tools@),
        limit,
        chosen,
        "model"@,
    );
    law_messages_body_holds_the_turn(
        model@,
        crate::messages_request::json_option(prompt),
        json_views(said@),
        json_views(tools@),
        limit,
        chosen,
        "model"@,
    );
    law_chat_body_holds_the_turn(
        model@,
        json_views(said@),
        json_views(tools@),
        limit,
        chosen,
        "model"@,
    );
}

/// What the user said is sent: the messages of the chat route hold, for a message of
/// the user's without an image, one entry with every text of it, whole and in order,
/// and one line feed between two of them.
pub proof fn law_user_words_are_sent(
    system: &str,
    messages: &Vec<ChatMessage>,
    at: int,
    k: int,
    built: Vec<Json>,
) -> (place: int)
    requires
        0 <= at < messages@.len(),
        messages@[at].role is User,
        no_image(message_views(messages@)[at].content),
        0 <= k < texts_said(message_views(messages@)[at].content).len(),
        call_ensures(build_messages, (system, messages), built),
    ensures
        ({
            let said = texts_said(message_views(messages@)[at].content);
            let entry = built@[place]@;
            &&& 0 <= place < built@.len()
            &&& field(entry, "role"@) == Some(JsonView::Str("user"@))
            &&& field(entry, "content"@) matches Some(JsonView::Str(all))
            &&& all.len() == begin_of(said, said.len() as int) - 1
            &&& all.subrange(begin_of(said, k), begin_of(said, k) + said[k].len()) == said[k]
            &&& k + 1 < said.len() ==> all[begin_of(said, k) + said[k].len()] == '\n'
        }),
{
    let views = message_views(messages@);
    let blocks = views[at].content;
    let es = crate::chat_messages::chat_entries(system@, views);
    let place = prompt_len(system@) + crate::chat_messages::conversation(views, at + 1).1.len() - 1;
    assert(views[at].role is User);
    law_user_texts_are_kept(blocks, k);
    law_user_messages_are_sent(system@, views, at);
    law_every_entry_is_sent(es, place);
    law_entries_are_sent_under_their_role(es[place]);
    assert(json_views(built@)[place] == built@[place]@);
    place
}

/// Thoughts stay thoughts and text stays text: a delta of the Messages route is sent on
/// as what it is, with its words.
pub proof fn law_deltas_are_sent_on_as_they_are(
    event: &SseEvent,
    state: &mut SseStreamState,
    is_oauth: bool,
    names: &TextMap<String>,
    value: JsonView,
    sent: Vec<StreamEvent>,
)
    requires
        event.event_type@ == "content_block_delta"@,
        parsed_json(event.data@) == Some(value),
        call_ensures(process_sse_event, (event, state, is_oauth, names), sent),
    ensures
        typed_text(object_in(value, "delta"@), "thinking_delta"@, "thinking"@) matches Some(t)
            ==> event_views(sent@) == seq![Event::ThinkingDelta(t)],
        typed_text(object_in(value, "delta"@), "text_delta"@, "text"@) matches Some(t)
            ==> event_views(sent@) == seq![Event::TextDelta(t)],
        typed_text(object_in(value, "delta"@), "input_json_delta"@, "partial_json"@) matches Some(t)
            ==> event_views(sent@) == seq![Event::ToolInputDelta(t)],
        forall|t: Seq<char>|
            #[trigger] event_views(sent@).contains(Event::TextDelta(t)) ==> typed_text(
                object_in(value, "delta"@),
                "text_delta"@,
                "text"@,
            ) == Some(t),
{
    law_deltas_keep_their_kind(old(state)@, event@, value, is_oauth, names@);
    let delta = object_in(value, "delta"@);
    let text = typed_text(delta, "text_delta"@, "text"@);
    assert forall|t: Seq<char>|
        #[trigger] event_views(sent@).contains(Event::TextDelta(t)) implies text == Some(t) by {
        let events = event_views(sent@);
        let i = choose|i: int| 0 <= i < events.len() && events[i] == Event::TextDelta(t);
        assert(events[i] == Event::<Seq<char>>::TextDelta(t));
        assert(events.len() == 1 && i == 0);
    }
}

/// What a value of the chat stream serves is sent on, whole and in order, after what
/// was sent before: texts, tool calls, every piece of their input, and the reasons to
/// stop.
pub proof fn law_chat_values_are_sent_on(
    stream: &mut ChatStream,
    value: &Json,
    events: &mut Vec<StreamEvent>,
    kind: Kind,
)
    requires
        call_ensures(ChatStream::take_value, (stream, value, events), ()),
    ensures
        ({
            let before = event_views(old(events)@);
            let after = event_views(final(events)@);
            &&& after.len() >= before.len()
            &&& after.take(before.len() as int) == before
            &&& of_kind(after.skip(before.len() as int), kind) == served_by_value(value@, kind)
        }),
{
    let before = event_views(old(events)@);
    let after = event_views(final(events)@);
    let new = value_step(old(stream)@, value@).1;
    law_values_are_served_whole(old(stream)@, value@, kind);
    assert(after =~= before + new);
    assert(after.take(before.len() as int) =~= before);
    assert(after.skip(before.len() as int) =~= new);
}

/// A step with a token or a base sends only where the catalog knows the model: to the
/// protocol that the catalog states, under the base, and the request remembers it.
/// Where the catalog does not know it, the catalog is fetched first.
pub proof fn law_requests_are_routed_by_the_catalog(
    request: &mut StreamRequest,
    happened: Happened,
    around: &Surroundings<'_>,
    shared: &mut SharedCatalog,
    limits: &mut ContextLimits,
    step: RequestStep,
)
    requires
        (happened matches Happened::Token(Ok(_))) || happened is Base,
        call_ensures(StreamRequest::step, (request, happened, around, shared, limits), step),
    ensures
        ({
            let model = old(request)@.model;
            let specs = old(shared)@.specs;
            let path = match specs[model].endpoint {
                CopilotEndpoint::Messages => "/v1/messages"@,
                CopilotEndpoint::Responses => "/responses"@,
                CopilotEndpoint::ChatCompletions => "/chat/completions"@,
            };
            &&& step.action@ is Send ==> specs.contains_key(model) && final(request)@.endpoint
                == specs[model].endpoint && final(request)@.base is Some
            &&& step.action@ matches ActionView::Send(http) ==> http.url == final(request)@.base->0
                + path
            &&& final(request)@.base is Some && !specs.contains_key(model)
                ==> step.action@ is FetchCatalog
            &&& final(request)@.base is Some && specs.contains_key(model) ==> step.action@ is Send
            &&& final(request)@.model == model
            &&& final(shared)@ == old(shared)@
        }),
{
    law_every_attempt_asks_the_catalog(old(request)@, happened, *around, old(shared)@.specs);
}

/// A route that the service calls stale is asked of the catalog again: the refusal
/// makes the request wait, and with the next token it fetches the catalog.
pub proof fn law_stale_route_is_looked_up_again(
    refused: &mut StreamRequest,
    retried: &mut StreamRequest,
    status_text: String,
    body: String,
    transient: bool,
    token: String,
    around: &Surroundings<'_>,
    first: &mut SharedCatalog,
    second: &mut SharedCatalog,
    limits: &mut ContextLimits,
    later: &mut ContextLimits,
    one: RequestStep,
    two: RequestStep,
)
    requires
        occurs(body@, "unsupported_api_for_model"@),
        old(refused)@.attempt + 1 < 3,
        old(refused)@.base is Some,
        old(first)@.specs.contains_key(old(refused)@.model),
        call_ensures(
            StreamRequest::step,
            (
                refused,
                Happened::Answered { status: 400, status_text, body, transient },
                around,
                first,
                limits,
            ),
            one,
        ),
        *final(refused) == *old(retried),
        *final(first) == *old(second),
        call_ensures(
            StreamRequest::step,
            (retried, Happened::Token(Ok(token)), around, second, later),
            two,
        ),
    ensures
        one.action@ == (ActionView::Sleep { attempt: (old(refused)@.attempt + 1) as u32 }),
        two.action@ == (ActionView::FetchCatalog { token: token@ }),
        final(retried)@.attempt == old(refused)@.attempt + 1,
{
}

/// A stream that ends, fails or falls silent says so on every route, and leaves its
/// reader as it was. The Messages and the Responses route take an end without anything
/// before it for a failure.
pub proof fn law_streams_end_as_they_end(
    chat: &mut ChatStream,
    messages: &mut MessagesStream,
    responses: &mut ResponsesStream,
    secs: u64,
    a: Step,
    b: Step,
    c: Step,
)
    requires
        call_ensures(ChatStream::step, (chat, Read::<Vec<u8>>::Ended, secs), a),
        call_ensures(MessagesStream::step, (messages, Read::<Vec<u8>>::Ended, secs), b),
        call_ensures(ResponsesStream::step, (responses, Read::<StreamEvent>::Ended, secs), c),
    ensures
        a@.next is Finish && a@.events == seq![
            Event::<Seq<char>>::MessageEnd { stop_reason: None },
        ] && a@.error is None,
        old(messages).saw_any_data ==> b@.next is Finish,
        !old(messages).saw_any_data ==> b@.next == Next::Fail("Copilot returned an empty stream"@),
        old(responses).saw_any_event ==> c@.next is Finish,
        !old(responses).saw_any_event ==> c@.next == Next::Fail(
            "Copilot returned an empty stream"@,
        ),
        b@.events.len() == 0 && c@.events.len() == 0,
        *final(chat) == *old(chat) && *final(messages) == *old(messages) && *final(responses)
            == *old(responses),
{
}

/// A read that fails, or that nothing arrives for, fails the turn with what happened,
/// except that the Responses route sends a failed event on as an error and goes on.
pub proof fn law_failed_reads_fail_the_turn(
    chat: &mut ChatStream,
    messages: &mut MessagesStream,
    responses: &mut ResponsesStream,
    silent: &mut ChatStream,
    error: String,
    secs: u64,
    a: Step,
    b: Step,
    c: Step,
    d: Step,
)
    requires
        call_ensures(ChatStream::step, (chat, Read::<Vec<u8>>::Failed(error), secs), a),
        call_ensures(MessagesStream::step, (messages, Read::<Vec<u8>>::Failed(error), secs), b),
        call_ensures(
            ResponsesStream::step,
            (responses, Read::<StreamEvent>::Failed(error), secs),
            c,
        ),
        call_ensures(ChatStream::step, (silent, Read::<Vec<u8>>::TimedOut, secs), d),
    ensures
        a@.next == Next::Fail("Stream error: "@ + error@),
        b@.next == Next::Fail("Stream error: "@ + error@),
        c@.next is Wait && c@.error == Some(error@) && c@.events.len() == 0,
        d@.next == Next::Fail(
            "Stream read timeout: no data received for "@ + crate::text::decimal(secs as nat)
                + " seconds"@,
        ),
{
}

/// An event of the Responses route is sent on as it came, and the stream has begun.
pub proof fn law_responses_events_are_sent_on(
    stream: &mut ResponsesStream,
    event: StreamEvent,
    secs: u64,
    r: Step,
)
    requires
        call_ensures(ResponsesStream::step, (stream, Read::Piece(event), secs), r),
    ensures
        r@.events == seq![event@],
        r@.next is Wait && r@.error is None,
        final(stream).saw_any_event,
{
}

/// A request starts with its first attempt, without a token or a base, and carries what
/// it was made with.
pub proof fn law_request_starts_afresh(
    model: String,
    user_initiated: bool,
    has_images: bool,
    made: StreamRequest,
)
    requires
        call_ensures(StreamRequest::new, (model, user_initiated, has_images), made),
    ensures
        made@.attempt == 0,
        made@.model == model@,
        made@.user_initiated == user_initiated && made@.has_images == has_images,
        made@.token.len() == 0 && made@.base is None,
{
}

/// Only a catalog that was fetched changes the known windows: to those of its usable
/// models, in order.
pub proof fn law_windows_change_with_the_catalog(
    request: &mut StreamRequest,
    happened: Happened,
    around: &Surroundings<'_>,
    shared: &mut SharedCatalog,
    limits: &mut ContextLimits,
    step: RequestStep,
)
    requires
        call_ensures(StreamRequest::step, (request, happened, around, shared, limits), step),
    ensures
        !(happened is Catalog) ==> final(limits)@ == old(limits)@,
        happened matches Happened::Catalog(None) ==> final(limits)@ == old(limits)@
            && final(shared)@ == old(shared)@,
        happened matches Happened::Catalog(Some(fetched)) ==> final(limits)@
            == crate::context_limits::limits_after(
            old(limits)@,
            crate::context_limits::stated_windows(
                crate::startup::usable_of(fetched@),
                crate::startup::usable_of(fetched@).len() as int,
            ),
        ),
        final(request)@.model == old(request)@.model,
        final(request)@.has_images == old(request)@.has_images,
        final(request)@.user_initiated == old(request)@.user_initiated,
{
}

/// A reader of the Messages route starts with nothing open and nothing counted, and
/// knows the model that was asked for.
pub proof fn law_messages_reader_starts_afresh(model: &str, made: MessagesStream)
    requires
        call_ensures(MessagesStream::new, (model,), made),
    ensures
        made.state@.tool is None && !made.state@.thinking && !made.state@.warned,
        made.state@.input_tokens is None && made.state@.output_tokens is None,
        made.state@.cache_read_input_tokens is None
            && made.state@.cache_creation_input_tokens is None,
        made.state@.requested == crate::text::ascii_lowered(model@),
        made.buffer@.len() == 0 && !made.saw_any_data,
{
}

} // verus!
