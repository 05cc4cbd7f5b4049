//! What holds of every reply that is decoded: what the consumer is sent, in terms
//! of what the route served.

use crate::json::{field, items_in, number_in, parsed_json, string_in, JsonView};
use crate::message::{Event, EventView};
use crate::stream::data_of;
use crate::stream_chat::{
    call_step, calls_step, choice_step, choices_step, done_events, is_done, line_step, received,
    text_step, under, value_step, ChatView, Progress,
};
use crate::text::{begins, lemma_position, occurs_at, position, trimmed, trimmed_end_of};
use vstd::prelude::*;

verus! {

/// Kinds of events.
pub enum Kind {
    /// Text of the reply.
    Said,
    /// The start of a tool call.
    Started,
    /// Input of a tool call.
    Input,
    /// A reason to stop.
    Stopped,
}

/// Whether an event is of a kind.
pub open spec fn is_kind(event: EventView, kind: Kind) -> bool {
    match kind {
        Kind::Said => event is TextDelta,
        Kind::Started => event is ToolUseStart,
        Kind::Input => event is ToolInputDelta,
        Kind::Stopped => event matches Event::MessageEnd { stop_reason: Some(_) },
    }
}

/// The events of a kind, in order.
pub open spec fn of_kind(events: Seq<EventView>, kind: Kind) -> Seq<EventView>
    decreases events.len(),
{
    if events.len() == 0 {
        seq![]
    } else if is_kind(events.last(), kind) {
        of_kind(events.drop_last(), kind).push(events.last())
    } else {
        of_kind(events.drop_last(), kind)
    }
}

proof fn lemma_of_kind_more(a: Seq<EventView>, b: Seq<EventView>, kind: Kind)
    ensures
        of_kind(a + b, kind) == of_kind(a, kind) + of_kind(b, kind),
    decreases b.len(),
{
    if b.len() == 0 {
        assert(a + b =~= a);
        assert(of_kind(a, kind) + of_kind(b, kind) =~= of_kind(a, kind));
    } else {
        assert((a + b).drop_last() =~= a + b.drop_last());
        lemma_of_kind_more(a, b.drop_last(), kind);
        assert((a + b).last() == b.last());
        if is_kind(b.last(), kind) {
            assert(of_kind(a + b, kind) =~= of_kind(a, kind) + of_kind(b, kind));
        }
    }
}

proof fn lemma_of_kind_one(event: EventView, kind: Kind)
    ensures
        of_kind(seq![event], kind) == (if is_kind(event, kind) {
            seq![event]
        } else {
            seq![]
        }),
{
    assert(seq![event].drop_last() =~= seq![]);
    assert(of_kind(Seq::<EventView>::empty(), kind) =~= seq![]);
    assert(of_kind(seq![event], kind) =~= (if is_kind(event, kind) {
        seq![event]
    } else {
        seq![]
    }));
}

proof fn lemma_of_kind_push(events: Seq<EventView>, event: EventView, kind: Kind)
    ensures
        of_kind(events.push(event), kind) == (if is_kind(event, kind) {
            of_kind(events, kind).push(event)
        } else {
            of_kind(events, kind)
        }),
{
    assert(events.push(event).drop_last() =~= events);
}

/// A list of one event, or none.
pub open spec fn at_most_one(event: Option<EventView>) -> Seq<EventView> {
    match event {
        Some(event) => seq![event],
        None => seq![],
    }
}

/// What an entry of `tool_calls` serves: a start where it has an id, and input
/// where its function has arguments.
pub open spec fn served_by_call(call: JsonView, kind: Kind) -> Seq<EventView> {
    let function = field(call, "function"@);
    match kind {
        Kind::Started => at_most_one(
            match string_in(field(call, "id"@)) {
                Some(id) => Some(
                    Event::ToolUseStart {
                        id,
                        name: match string_in(under(function, "name"@)) {
                            Some(name) => name,
                            None => seq![],
                        },
                    },
                ),
                None => None,
            },
        ),
        Kind::Input => at_most_one(
            match string_in(under(function, "arguments"@)) {
                Some(arguments) => Some(Event::ToolInputDelta(arguments)),
                None => None,
            },
        ),
        _ => seq![],
    }
}

/// What the first `n` entries of `tool_calls` serve.
pub open spec fn served_by_calls(calls: Seq<JsonView>, n: int, kind: Kind) -> Seq<EventView>
    decreases n,
{
    if n <= 0 {
        seq![]
    } else {
        served_by_calls(calls, n - 1, kind) + served_by_call(calls[n - 1], kind)
    }
}

/// The reason to stop that a `finish_reason` gives.
pub open spec fn reason_for(finish: Seq<char>) -> Seq<char> {
    if finish == "stop"@ {
        "end_turn"@
    } else if finish == "length"@ {
        "max_tokens"@
    } else if finish == "tool_calls"@ {
        "tool_use"@
    } else {
        finish
    }
}

/// What a choice serves: nothing without a `delta`; text where its `content` is
/// not empty; its tool calls; and a reason to stop where it has a `finish_reason`.
pub open spec fn served_by_choice(choice: JsonView, kind: Kind) -> Seq<EventView> {
    match field(choice, "delta"@) {
        None => seq![],
        Some(delta) => match kind {
            Kind::Said => at_most_one(
                match string_in(field(delta, "content"@)) {
                    Some(content) => if content.len() > 0 {
                        Some(Event::TextDelta(content))
                    } else {
                        None
                    },
                    None => None,
                },
            ),
            Kind::Stopped => at_most_one(
                match string_in(field(choice, "finish_reason"@)) {
                    Some(finish) => Some(
                        Event::MessageEnd { stop_reason: Some(reason_for(finish)) },
                    ),
                    None => None,
                },
            ),
            _ => match items_in(field(delta, "tool_calls"@)) {
                Some(calls) => served_by_calls(calls, calls.len() as int, kind),
                None => seq![],
            },
        },
    }
}

/// What the first `n` choices serve.
pub open spec fn served_by_choices(choices: Seq<JsonView>, n: int, kind: Kind) -> Seq<EventView>
    decreases n,
{
    if n <= 0 {
        seq![]
    } else {
        served_by_choices(choices, n - 1, kind) + served_by_choice(choices[n - 1], kind)
    }
}

/// What a value of the stream serves.
pub open spec fn served_by_value(value: JsonView, kind: Kind) -> Seq<EventView> {
    match items_in(field(value, "choices"@)) {
        Some(choices) => served_by_choices(choices, choices.len() as int, kind),
        None => seq![],
    }
}

/// What a line of the stream serves: its value, where it is a `data` line with one.
pub open spec fn served_by_line(line: Seq<char>, kind: Kind) -> Seq<EventView> {
    match data_of(line) {
        Some(data) => match parsed_json(data) {
            Some(value) => served_by_value(value, kind),
            None => seq![],
        },
        None => seq![],
    }
}

/// What the complete lines of a text serve, up to one that ends the stream.
pub open spec fn served_by_text(text: Seq<char>, kind: Kind) -> Seq<EventView>
    decreases text.len(),
{
    match position(text, seq!['\n']) {
        Some(i) => if 0 <= i < text.len() {
            let line = trimmed_end_of(text.take(i), '\r');
            if is_done(line) {
                seq![]
            } else {
                served_by_line(line, kind) + served_by_text(text.skip(i + 1), kind)
            }
        } else {
            seq![]
        },
        None => seq![],
    }
}

proof fn lemma_call_serves(open: Seq<char>, call: JsonView, kind: Kind)
    ensures
        of_kind(call_step(open, call).1, kind) == served_by_call(call, kind),
{
    let function = field(call, "function"@);
    let name = match string_in(under(function, "name"@)) {
        Some(name) => name,
        None => seq![],
    };
    let none: Seq<EventView> = seq![];
    let end: EventView = Event::ToolUseEnd;
    assert(of_kind(none, kind) =~= seq![]);
    lemma_of_kind_one(end, kind);
    let ended = if open.len() == 0 {
        none
    } else {
        seq![end]
    };
    let started = match string_in(field(call, "id"@)) {
        Some(id) => {
            let start: EventView = Event::ToolUseStart { id, name };
            lemma_of_kind_push(ended, start, kind);
            ended.push(start)
        },
        None => none,
    };
    match string_in(under(function, "arguments"@)) {
        Some(args) => {
            lemma_of_kind_push(started, Event::ToolInputDelta(args), kind);
        },
        None => {},
    }
    assert(of_kind(call_step(open, call).1, kind) =~= served_by_call(call, kind));
}

proof fn lemma_calls_serve(open: Seq<char>, calls: Seq<JsonView>, n: int, kind: Kind)
    ensures
        of_kind(calls_step(open, calls, n).1, kind) == served_by_calls(calls, n, kind),
    decreases n,
{
    if n > 0 {
        lemma_calls_serve(open, calls, n - 1, kind);
        let before = calls_step(open, calls, n - 1);
        lemma_call_serves(before.0, calls[n - 1], kind);
        lemma_of_kind_more(before.1, call_step(before.0, calls[n - 1]).1, kind);
    }
}

proof fn lemma_no_calls_else(calls: Seq<JsonView>, n: int, kind: Kind)
    requires
        kind is Said || kind is Stopped,
    ensures
        served_by_calls(calls, n, kind) == Seq::<EventView>::empty(),
    decreases n,
{
    if n > 0 {
        lemma_no_calls_else(calls, n - 1, kind);
        assert(served_by_calls(calls, n, kind) =~= Seq::<EventView>::empty());
    }
}

proof fn lemma_choice_serves(open: Seq<char>, choice: JsonView, kind: Kind)
    ensures
        of_kind(choice_step(open, choice).1, kind) == served_by_choice(choice, kind),
{
    let none: Seq<EventView> = seq![];
    assert(of_kind(none, kind) =~= seq![]);
    match field(choice, "delta"@) {
        None => {},
        Some(delta) => {
            let said: Seq<EventView> = match string_in(field(delta, "content"@)) {
                Some(content) => {
                    lemma_of_kind_one(Event::TextDelta(content), kind);
                    if content.len() == 0 {
                        seq![]
                    } else {
                        seq![Event::TextDelta(content)]
                    }
                },
                None => seq![],
            };
            let called = match items_in(field(delta, "tool_calls"@)) {
                Some(calls) => {
                    lemma_calls_serve(open, calls, calls.len() as int, kind);
                    if kind is Said || kind is Stopped {
                        lemma_no_calls_else(calls, calls.len() as int, kind);
                    }
                    calls_step(open, calls, calls.len() as int)
                },
                None => (open, none),
            };
            let so_far = said + called.1;
            lemma_of_kind_more(said, called.1, kind);
            match string_in(field(choice, "finish_reason"@)) {
                None => {},
                Some(finish) => {
                    reveal_strlit("length");
                    reveal_strlit("tool_calls");
                    assert("length"@.len() == 6 && "tool_calls"@.len() == 10);
                    let end: EventView = Event::ToolUseEnd;
                    let closed = if called.0.len() == 0 {
                        none
                    } else {
                        seq![end]
                    };
                    lemma_of_kind_one(end, kind);
                    lemma_of_kind_more(so_far, closed, kind);
                    lemma_of_kind_push(
                        so_far + closed,
                        Event::MessageEnd { stop_reason: Some(reason_for(finish)) },
                        kind,
                    );
                },
            }
            assert(of_kind(choice_step(open, choice).1, kind) =~= served_by_choice(choice, kind));
        },
    }
}

proof fn lemma_choices_serve(open: Seq<char>, choices: Seq<JsonView>, n: int, kind: Kind)
    ensures
        of_kind(choices_step(open, choices, n).1, kind) == served_by_choices(choices, n, kind),
    decreases n,
{
    if n > 0 {
        lemma_choices_serve(open, choices, n - 1, kind);
        let before = choices_step(open, choices, n - 1);
        lemma_choice_serves(before.0, choices[n - 1], kind);
        lemma_of_kind_more(before.1, choice_step(before.0, choices[n - 1]).1, kind);
    }
}

/// Nothing that a value of the chat stream serves is lost, changed or made up,
/// whatever is open: the texts, the starts of tool calls, the pieces of their input
/// and the reasons to stop that the consumer is sent are, each in order, exactly
/// those that stand in the value.
pub proof fn law_values_are_served_whole(st: ChatView, value: JsonView, kind: Kind)
    ensures
        of_kind(value_step(st, value).1, kind) == served_by_value(value, kind),
{
    match items_in(field(value, "choices"@)) {
        Some(choices) => {
            lemma_choices_serve(st.tool_id, choices, choices.len() as int, kind);
        },
        None => {
            assert(of_kind(Seq::<EventView>::empty(), kind) =~= seq![]);
        },
    }
}

proof fn lemma_comment_serves_nothing(line: Seq<char>)
    requires
        line.len() == 0 || begins(line, ":"@),
    ensures
        data_of(line) is None,
{
    reveal_strlit(":");
    reveal_strlit("data:");
    reveal_strlit("data: ");
    if begins(line, "data: "@) {
        assert(line.subrange(0, 6)[0] == "data: "@[0]);
    }
    if begins(line, "data:"@) {
        assert(line.subrange(0, 5)[0] == "data:"@[0]);
    }
    if begins(line, ":"@) {
        assert(line.subrange(0, 1)[0] == ":"@[0]);
    }
}

/// Nothing that a text of the chat stream serves is lost, changed or made up: of
/// each kind the consumer is sent, in order, exactly what stands in the lines up
/// to the one that ends the stream. So the input of a tool call is complete,
/// however many pieces it came in.
pub proof fn law_texts_are_served_whole(st: ChatView, text: Seq<char>, kind: Kind)
    ensures
        of_kind(text_step(st, text).events, kind) == served_by_text(text, kind),
    decreases text.len(),
{
    let none: Seq<EventView> = seq![];
    assert(of_kind(none, kind) =~= seq![]);
    match position(text, seq!['\n']) {
        Some(i) => {
            if 0 <= i < text.len() {
                let line = trimmed_end_of(text.take(i), '\r');
                let rest = text.skip(i + 1);
                if is_done(line) {
                    let end: EventView = Event::MessageEnd { stop_reason: None };
                    let usage: EventView = Event::TokenUsage {
                        input_tokens: Some(st.input_tokens),
                        output_tokens: Some(st.output_tokens),
                        cache_creation_input_tokens: None,
                        cache_read_input_tokens: None,
                    };
                    lemma_of_kind_one(end, kind);
                    lemma_of_kind_one(usage, kind);
                    lemma_of_kind_more(seq![usage], seq![end], kind);
                    assert(seq![usage, end] =~= seq![usage] + seq![end]);
                    assert(of_kind(done_events(st), kind) =~= seq![]);
                } else {
                    if line.len() == 0 || begins(line, ":"@) {
                        lemma_comment_serves_nothing(line);
                    }
                    match data_of(line) {
                        Some(data) => match parsed_json(data) {
                            Some(value) => {
                                law_values_are_served_whole(st, value, kind);
                            },
                            None => {},
                        },
                        None => {},
                    }
                    let step = line_step(st, line);
                    assert(of_kind(step.1, kind) == served_by_line(line, kind));
                    law_texts_are_served_whole(step.0, rest, kind);
                    lemma_of_kind_more(step.1, text_step(step.0, rest).events, kind);
                }
            }
        },
        None => {},
    }
}

/// A line that ends the stream ends the reply: the request is counted with the
/// token counts of the last report, which the consumer is told where there are
/// any, and the end comes last.
pub proof fn law_done_counts_the_tokens(st: ChatView, text: Seq<char>)
    ensures
        ({
            let p = text_step(st, text);
            let step = received(p);
            &&& step.events == p.events
            &&& step.error is None
            &&& p.done <==> step.next is Finish
            &&& !p.done ==> step.next is Wait && step.usage is None
            &&& p.done ==> {
                &&& step.usage == Some((p.chat.input_tokens, p.chat.output_tokens))
                &&& p.events.len() > 0
                &&& p.events.last() == (Event::<Seq<char>>::MessageEnd { stop_reason: None })
                &&& p.chat.input_tokens > 0 || p.chat.output_tokens > 0 ==> p.events.len() > 1
                    && p.events[p.events.len() - 2] == (Event::<Seq<char>>::TokenUsage {
                    input_tokens: Some(p.chat.input_tokens),
                    output_tokens: Some(p.chat.output_tokens),
                    cache_creation_input_tokens: None,
                    cache_read_input_tokens: None,
                })
            }
        }),
    decreases text.len(),
{
    match position(text, seq!['\n']) {
        Some(i) => {
            if 0 <= i < text.len() {
                let line = trimmed_end_of(text.take(i), '\r');
                if !is_done(line) {
                    let step = line_step(st, line);
                    law_done_counts_the_tokens(step.0, text.skip(i + 1));
                }
            }
        },
        None => {},
    }
}

/// The token counts are those of the last report: a value with a report sets both,
/// a missing or strange count being zero, and a value without one keeps them.
pub proof fn law_last_report_counts(st: ChatView, value: JsonView)
    ensures
        ({
            let after = value_step(st, value).0;
            match field(value, "usage"@) {
                Some(usage) => {
                    &&& after.input_tokens == (match number_in(field(usage, "prompt_tokens"@)) {
                        Some(n) => n,
                        None => 0,
                    })
                    &&& after.output_tokens == (match number_in(
                        field(usage, "completion_tokens"@),
                    ) {
                        Some(n) => n,
                        None => 0,
                    })
                },
                None => after.input_tokens == st.input_tokens && after.output_tokens
                    == st.output_tokens,
            }
        }),
{
}

/// A `data` line holds what follows the colon, without one space behind it; no
/// other line holds anything.
pub proof fn law_data_lines_hold_their_data(data: Seq<char>, line: Seq<char>)
    ensures
        data_of("data: "@ + data) == Some(data),
        data.len() == 0 || data[0] != ' ' ==> data_of("data:"@ + data) == Some(data),
        data_of(line) matches Some(held) ==> line == "data:"@ + held || line == "data: "@ + held,
{
    reveal_strlit("data:");
    reveal_strlit("data: ");
    let spaced = "data: "@ + data;
    assert(spaced.subrange(0, 6) =~= "data: "@);
    assert(spaced.skip(6) =~= data);
    let tight = "data:"@ + data;
    assert(tight.subrange(0, 5) =~= "data:"@);
    assert(tight.skip(5) =~= data);
    if begins(tight, "data: "@) {
        assert(tight.subrange(0, 6)[5] == ' ');
        assert(tight[5] == data[0]);
    }
    if begins(line, "data: "@) {
        assert(line =~= line.subrange(0, 6) + line.skip(6));
    }
    if begins(line, "data:"@) {
        assert(line =~= line.subrange(0, 5) + line.skip(5));
    }
}

/// A line ends the stream exactly where its data is `[DONE]`, white space aside.
pub proof fn law_done_line_says_done(line: Seq<char>)
    ensures
        is_done(line) <==> (data_of(line) matches Some(data) && trimmed(data) == "[DONE]"@),
{
    if line.len() == 0 || begins(line, ":"@) {
        lemma_comment_serves_nothing(line);
    }
}

/// A call is served by its start, if it names an id, and then by its input, if it has
/// any. Where another call is open, that one is ended first. The call that stays open is
/// the one that was named last.
pub proof fn law_call_starts_before_its_input(
    open: Seq<char>,
    call: JsonView,
    id: Seq<char>,
    name: Seq<char>,
    args: Seq<char>,
)
    requires
        field(call, "function"@) matches Some(function) && field(function, "name"@) == Some(
            JsonView::Str(name),
        ) && field(function, "arguments"@) == Some(JsonView::Str(args)),
    ensures
        field(call, "id"@) == Some(JsonView::Str(id)) && open.len() == 0 ==> call_step(open, call)
            == (
            id,
            seq![
                Event::<Seq<char>>::ToolUseStart { id, name },
                Event::<Seq<char>>::ToolInputDelta(args),
            ],
        ),
        field(call, "id"@) == Some(JsonView::Str(id)) && open.len() > 0 ==> call_step(open, call)
            == (
            id,
            seq![
                Event::<Seq<char>>::ToolUseEnd,
                Event::<Seq<char>>::ToolUseStart { id, name },
                Event::<Seq<char>>::ToolInputDelta(args),
            ],
        ),
        field(call, "id"@) is None ==> call_step(open, call) == (
            open,
            seq![Event::<Seq<char>>::ToolInputDelta(args)],
        ),
{
    let (after, events) = call_step(open, call);
    if field(call, "id"@) == Some(JsonView::Str(id)) {
        if open.len() == 0 {
            assert(events =~= seq![
                Event::<Seq<char>>::ToolUseStart { id, name },
                Event::<Seq<char>>::ToolInputDelta(args),
            ]);
        } else {
            assert(events =~= seq![
                Event::<Seq<char>>::ToolUseEnd,
                Event::<Seq<char>>::ToolUseStart { id, name },
                Event::<Seq<char>>::ToolInputDelta(args),
            ]);
        }
    } else if field(call, "id"@) is None {
        assert(events =~= seq![Event::<Seq<char>>::ToolInputDelta(args)]);
    }
}

proof fn lemma_calls_before(open: Seq<char>, calls: Seq<JsonView>, call: JsonView, n: int)
    requires
        n <= calls.len(),
    ensures
        calls_step(open, calls.push(call), n) == calls_step(open, calls, n),
    decreases n,
{
    if n > 0 {
        lemma_calls_before(open, calls, call, n - 1);
        assert(calls.push(call)[n - 1] == calls[n - 1]);
    }
}

/// Calls are served one after the other, each with what the one before it left open.
pub proof fn law_calls_are_served_in_order(open: Seq<char>, calls: Seq<JsonView>, call: JsonView)
    ensures
        ({
            let n = calls.len() as int;
            let before = calls_step(open, calls, n);
            let last = call_step(before.0, call);
            calls_step(open, calls.push(call), n + 1) == (last.0, before.1 + last.1)
        }),
        calls_step(open, Seq::<JsonView>::empty(), 0) == (open, Seq::<EventView>::empty()),
{
    lemma_calls_before(open, calls, call, calls.len() as int);
    assert(calls.push(call)[calls.len() as int] == call);
}

proof fn lemma_choices_before(open: Seq<char>, choices: Seq<JsonView>, choice: JsonView, n: int)
    requires
        n <= choices.len(),
    ensures
        choices_step(open, choices.push(choice), n) == choices_step(open, choices, n),
    decreases n,
{
    if n > 0 {
        lemma_choices_before(open, choices, choice, n - 1);
        assert(choices.push(choice)[n - 1] == choices[n - 1]);
    }
}

/// Choices are served one after the other, each with what the one before it left open.
pub proof fn law_choices_are_served_in_order(
    open: Seq<char>,
    choices: Seq<JsonView>,
    choice: JsonView,
)
    ensures
        ({
            let n = choices.len() as int;
            let before = choices_step(open, choices, n);
            let last = choice_step(before.0, choice);
            choices_step(open, choices.push(choice), n + 1) == (last.0, before.1 + last.1)
        }),
{
    lemma_choices_before(open, choices, choice, choices.len() as int);
    assert(choices.push(choice)[choices.len() as int] == choice);
}

/// A choice is served by its text, then by its calls, then by its reason to stop, which
/// ends the call that is open.
pub proof fn law_choice_speaks_before_it_calls(
    open: Seq<char>,
    choice: JsonView,
    delta: JsonView,
    content: Seq<char>,
    calls: Seq<JsonView>,
    finish: Seq<char>,
)
    requires
        field(choice, "delta"@) == Some(delta),
        field(delta, "content"@) == Some(JsonView::Str(content)),
        content.len() > 0,
        field(delta, "tool_calls"@) == Some(JsonView::Array(calls)),
    ensures
        ({
            let called = calls_step(open, calls, calls.len() as int);
            let said = seq![Event::<Seq<char>>::TextDelta(content)];
            let (after, events) = choice_step(open, choice);
            let stop = Event::<Seq<char>>::MessageEnd { stop_reason: Some(reason_for(finish)) };
            &&& field(choice, "finish_reason"@) is None ==> after == called.0 && events == said
                + called.1
            &&& field(choice, "finish_reason"@) == Some(JsonView::Str(finish)) && called.0.len()
                == 0 ==> after.len() == 0 && events == (said + called.1).push(stop)
            &&& field(choice, "finish_reason"@) == Some(JsonView::Str(finish)) && called.0.len()
                > 0 ==> after.len() == 0 && events == (said + called.1).push(
                Event::<Seq<char>>::ToolUseEnd,
            ).push(stop)
        }),
{
    reveal_strlit("stop");
    reveal_strlit("tool_calls");
    reveal_strlit("length");
    assert("stop"@.len() == 4 && "tool_calls"@.len() == 10 && "length"@.len() == 6);
    let called = calls_step(open, calls, calls.len() as int);
    let said = seq![Event::<Seq<char>>::TextDelta(content)];
    let events = choice_step(open, choice).1;
    let stop = Event::<Seq<char>>::MessageEnd { stop_reason: Some(reason_for(finish)) };
    if field(choice, "finish_reason"@) == Some(JsonView::Str(finish)) {
        if called.0.len() == 0 {
            assert(events =~= (said + called.1).push(stop));
        } else {
            assert(events =~= (said + called.1).push(Event::<Seq<char>>::ToolUseEnd).push(stop));
        }
    }
}

/// A stream that is done finishes with its counts; any other waits and counts nothing
/// yet. What was served is sent on either way.
pub proof fn law_done_stream_finishes(p: Progress)
    ensures
        ({
            let r = received(p);
            &&& r.events == p.events && r.error is None
            &&& p.done ==> r.next is Finish && r.usage == Some(
                (p.chat.input_tokens, p.chat.output_tokens),
            )
            &&& !p.done ==> r.next is Wait && r.usage is None
        }),
{
}

/// Lines are served one after the other: what a line serves stands before what the rest
/// serves, which goes by the state that the line left. A line that says that the stream
/// is done ends it, and what follows is not served. A line that is not finished waits.
pub proof fn law_lines_are_served_in_order(st: ChatView, line: Seq<char>, rest: Seq<char>)
    requires
        !line.contains('\n'),
        line.len() == 0 || line.last() != '\r',
    ensures
        ({
            let all = text_step(st, line + seq!['\n'] + rest);
            let (after, events) = line_step(st, line);
            let later = text_step(after, rest);
            let waiting = text_step(st, line);
            &&& !is_done(line) ==> all.events == events + later.events
                && all.chat == later.chat && all.rest == later.rest && all.done == later.done
            &&& is_done(line) ==> all.done && all.chat == st && all.rest == rest
            &&& waiting.events.len() == 0 && waiting.rest == line && waiting.chat == st
                && !waiting.done
        }),
{
    let feed = seq!['\n'];
    let text = line + feed + rest;
    let at = line.len() as int;
    assert(text.subrange(at, at + 1) =~= feed);
    assert(occurs_at(text, feed, at));
    lemma_position(text, feed);
    lemma_position(line, feed);
    let p = position(text, feed)->0;
    if p < at {
        assert(text.subrange(p, p + 1)[0] == text[p]);
        assert(line[p] == '\n');
        assert(false);
    }
    if p > at {
        assert(!occurs_at(text, feed, at));
    }
    if let Some(q) = position(line, feed) {
        assert(line.subrange(q, q + 1)[0] == line[q]);
        assert(line.contains('\n'));
    }
    assert(text.take(at) =~= line);
    assert(text.skip(at + 1) =~= rest);
}

} // verus!
