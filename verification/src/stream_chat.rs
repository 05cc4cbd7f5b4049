//! Decoding of the event stream that the `/chat/completions` route serves.
//!
//! The models that predate advertised endpoints answer here, in the shape of an
//! OpenAI chat stream: lines of `data:` with one JSON value each, and a last
//! `[DONE]`.

use crate::json::{
    field, items_in, json_views, number_in, parse, parsed_json, string_in, Json, JsonView,
};
use crate::message::{emit, event_views, Event, EventView, StreamEvent};
use crate::stream::{
    data_of, idle_failure, idle_failure_text, quiet, read_failure, read_failure_text, silent,
    sse_data_line, Next, Read, Step, StepView,
};
use crate::text::{
    begins, chars_of, find_from, from_utf8_lossy, lemma_position, lemma_position_from,
    lemma_position_shift, occurs_at, owned, position, same, starts_with, text_of, trim, trim_end_of,
    trimmed, trimmed_end_of, utf8_lossy,
};
use vstd::prelude::*;

verus! {

/// What `v` holds under `key`, if there is a `v`.
pub open spec fn under(v: Option<JsonView>, key: Seq<char>) -> Option<JsonView> {
    match v {
        Some(v) => field(v, key),
        None => None,
    }
}

/// The tool call that the stream is in the middle of (empty: none) and the
/// token counts seen last.
pub struct ChatView {
    pub tool_id: Seq<char>,
    pub input_tokens: u64,
    pub output_tokens: u64,
}

/// What one entry of `tool_calls` does: the tool call that is open after it, and
/// the events.
pub open spec fn call_step(open: Seq<char>, call: JsonView) -> (Seq<char>, Seq<EventView>) {
    let function = field(call, "function"@);
    let name = match string_in(under(function, "name"@)) {
        Some(name) => name,
        None => seq![],
    };
    let started = match string_in(field(call, "id"@)) {
        Some(id) => (
            id,
            (if open.len() == 0 {
                seq![]
            } else {
                seq![Event::ToolUseEnd]
            }).push(Event::ToolUseStart { id, name }),
        ),
        None => (open, seq![]),
    };
    match string_in(under(function, "arguments"@)) {
        Some(args) => (started.0, started.1.push(Event::ToolInputDelta(args))),
        None => started,
    }
}

/// What the first `n` entries of `tool_calls` do, one after the other.
pub open spec fn calls_step(open: Seq<char>, calls: Seq<JsonView>, n: int) -> (
    Seq<char>,
    Seq<EventView>,
)
    decreases n,
{
    if n <= 0 {
        (open, seq![])
    } else {
        let before = calls_step(open, calls, n - 1);
        let step = call_step(before.0, calls[n - 1]);
        (step.0, before.1 + step.1)
    }
}

/// The stop reason that stands for a `finish_reason`.
pub open spec fn stop_reason(finish: Seq<char>) -> Seq<char> {
    if finish == "stop"@ {
        "end_turn"@
    } else if finish == "tool_calls"@ {
        "tool_use"@
    } else if finish == "length"@ {
        "max_tokens"@
    } else {
        finish
    }
}

/// What one choice does: its text, its tool calls, then its end.
pub open spec fn choice_step(open: Seq<char>, choice: JsonView) -> (Seq<char>, Seq<EventView>) {
    match field(choice, "delta"@) {
        None => (open, seq![]),
        Some(delta) => {
            let said: Seq<EventView> = match string_in(field(delta, "content"@)) {
                Some(content) => if content.len() == 0 {
                    seq![]
                } else {
                    seq![Event::TextDelta(content)]
                },
                None => seq![],
            };
            let called = match items_in(field(delta, "tool_calls"@)) {
                Some(calls) => calls_step(open, calls, calls.len() as int),
                None => (open, seq![]),
            };
            match string_in(field(choice, "finish_reason"@)) {
                None => (called.0, said + called.1),
                Some(finish) => (
                    seq![],
                    (said + called.1 + (if called.0.len() == 0 {
                        seq![]
                    } else {
                        seq![Event::ToolUseEnd]
                    })).push(Event::MessageEnd { stop_reason: Some(stop_reason(finish)) }),
                ),
            }
        },
    }
}

/// What the first `n` choices do, one after the other.
pub open spec fn choices_step(open: Seq<char>, choices: Seq<JsonView>, n: int) -> (
    Seq<char>,
    Seq<EventView>,
)
    decreases n,
{
    if n <= 0 {
        (open, seq![])
    } else {
        let before = choices_step(open, choices, n - 1);
        let step = choice_step(before.0, choices[n - 1]);
        (step.0, before.1 + step.1)
    }
}

/// A token count of a usage report; zero where it is missing.
pub open spec fn count(usage: JsonView, key: Seq<char>) -> u64 {
    match number_in(field(usage, key)) {
        Some(n) => n,
        None => 0,
    }
}

/// What one JSON value of the stream does.
pub open spec fn value_step(st: ChatView, value: JsonView) -> (ChatView, Seq<EventView>) {
    let counted = match field(value, "usage"@) {
        Some(usage) => ChatView {
            tool_id: st.tool_id,
            input_tokens: count(usage, "prompt_tokens"@),
            output_tokens: count(usage, "completion_tokens"@),
        },
        None => st,
    };
    match items_in(field(value, "choices"@)) {
        Some(choices) => {
            let step = choices_step(st.tool_id, choices, choices.len() as int);
            (ChatView { tool_id: step.0, ..counted }, step.1)
        },
        None => (counted, seq![]),
    }
}

/// Whether a line ends the stream.
pub open spec fn is_done(line: Seq<char>) -> bool {
    &&& line.len() > 0
    &&& !begins(line, ":"@)
    &&& data_of(line) matches Some(data) && trimmed(data) == "[DONE]"@
}

/// What a line that does not end the stream does.
pub open spec fn line_step(st: ChatView, line: Seq<char>) -> (ChatView, Seq<EventView>) {
    if line.len() == 0 || begins(line, ":"@) {
        (st, seq![])
    } else {
        match data_of(line) {
            Some(data) => match parsed_json(data) {
                Some(value) => value_step(st, value),
                None => (st, seq![]),
            },
            None => (st, seq![]),
        }
    }
}

/// The events that `[DONE]` sends: the token counts, if any were reported, and
/// the end.
pub open spec fn done_events(st: ChatView) -> Seq<EventView> {
    let end: EventView = Event::MessageEnd { stop_reason: None };
    if st.input_tokens > 0 || st.output_tokens > 0 {
        seq![
            Event::TokenUsage {
                input_tokens: Some(st.input_tokens),
                output_tokens: Some(st.output_tokens),
                cache_creation_input_tokens: None,
                cache_read_input_tokens: None,
            },
            end,
        ]
    } else {
        seq![end]
    }
}

/// What decoding a text has come to.
pub struct Progress {
    pub chat: ChatView,
    /// The text after the last complete line.
    pub rest: Seq<char>,
    pub events: Seq<EventView>,
    pub done: bool,
}

/// What the complete lines at the start of `text` do, up to one that ends the
/// stream.
pub open spec fn text_step(st: ChatView, text: Seq<char>) -> Progress
    decreases text.len(),
{
    match position(text, seq!['\n']) {
        Some(i) => if 0 <= i < text.len() {
            let line = trimmed_end_of(text.take(i), '\r');
            let rest = text.skip(i + 1);
            if is_done(line) {
                Progress { chat: st, rest, events: done_events(st), done: true }
            } else {
                let step = line_step(st, line);
                let later = text_step(step.0, rest);
                Progress { events: step.1 + later.events, ..later }
            }
        } else {
            Progress { chat: st, rest: text, events: seq![], done: false }
        },
        None => Progress { chat: st, rest: text, events: seq![], done: false },
    }
}

/// The step for a piece of text: where it ended the stream, the request is to be
/// counted with its tokens.
pub open spec fn received(p: Progress) -> StepView {
    if p.done {
        StepView {
            events: p.events,
            error: None,
            usage: Some((p.chat.input_tokens, p.chat.output_tokens)),
            next: Next::Finish,
        }
    } else {
        StepView { events: p.events, error: None, usage: None, next: Next::Wait }
    }
}

/// The first line feed of `a` is the first of `a + b`.
proof fn lemma_feed_in_front(a: Seq<char>, b: Seq<char>)
    requires
        position(a, seq!['\n']) is Some,
    ensures
        position(a + b, seq!['\n']) == position(a, seq!['\n']),
{
    let n = seq!['\n'];
    lemma_position(a, n);
    lemma_position(a + b, n);
    let i = position(a, n)->0;
    assert forall|j: int| 0 <= j < a.len() implies #[trigger] occurs_at(a + b, n, j) == occurs_at(
        a,
        n,
        j,
    ) by {
        assert((a + b).subrange(j, j + 1) =~= a.subrange(j, j + 1));
    }
    assert(occurs_at(a + b, n, i));
    lemma_position_from(a + b, n, 0);
    match position(a + b, n) {
        Some(k) => {
            assert(occurs_at(a + b, n, k));
            if k < i {
                assert(occurs_at(a, n, k));
            }
        },
        None => {},
    }
}

/// It does not matter where a text is cut into pieces: decoding one piece and
/// then the next sends the same events and leaves the same state as decoding
/// both at once.
pub proof fn law_text_may_arrive_in_pieces(st: ChatView, a: Seq<char>, b: Seq<char>)
    ensures
        ({
            let first = text_step(st, a);
            let both = text_step(st, a + b);
            if first.done {
                both == Progress { rest: first.rest + b, ..first }
            } else {
                let later = text_step(first.chat, first.rest + b);
                both == Progress { events: first.events + later.events, ..later }
            }
        }),
    decreases a.len(),
{
    match position(a, seq!['\n']) {
        Some(i) => {
            lemma_position(a, seq!['\n']);
            lemma_feed_in_front(a, b);
            assert((a + b).take(i) =~= a.take(i));
            assert((a + b).skip(i + 1) =~= a.skip(i + 1) + b);
            let line = trimmed_end_of(a.take(i), '\r');
            if !is_done(line) {
                let step = line_step(st, line);
                law_text_may_arrive_in_pieces(step.0, a.skip(i + 1), b);
                let first = text_step(st, a);
                if !first.done {
                    let later = text_step(first.chat, first.rest + b);
                    assert(text_step(st, a + b).events =~= first.events + later.events);
                }
            }
        },
        None => {
            let later = text_step(st, a + b);
            assert(seq![] + later.events =~= later.events);
        },
    }
}

/// The decoder of one reply.
pub struct ChatStream {
    pub buffer: String,
    pub tool_id: String,
    pub input_tokens: u64,
    pub output_tokens: u64,
}

impl View for ChatStream {
    type V = ChatView;

    open spec fn view(&self) -> ChatView {
        ChatView {
            tool_id: self.tool_id@,
            input_tokens: self.input_tokens,
            output_tokens: self.output_tokens,
        }
    }
}

/// The string that `j` holds under `outer` and there under `inner`.
fn inner_text<'a>(j: &'a Json, outer: &str, inner: &str) -> (r: Option<&'a str>)
    ensures
        (match r {
            Some(t) => string_in(under(field(j@, outer@), inner@)) == Some(t@),
            None => string_in(under(field(j@, outer@), inner@)) is None,
        }),
{
    match j.get(outer) {
        Some(o) => match o.get(inner) {
            Some(v) => v.as_str(),
            None => None,
        },
        None => None,
    }
}

/// The string that `j` holds under `key`.
pub(crate) fn text_under<'a>(j: &'a Json, key: &str) -> (r: Option<&'a str>)
    ensures
        (match r {
            Some(t) => string_in(field(j@, key@)) == Some(t@),
            None => string_in(field(j@, key@)) is None,
        }),
{
    match j.get(key) {
        Some(v) => v.as_str(),
        None => None,
    }
}

/// The items that `j` holds under `key`.
pub(crate) fn items_under<'a>(j: &'a Json, key: &str) -> (r: Option<&'a Vec<Json>>)
    ensures
        (match r {
            Some(items) => items_in(field(j@, key@)) == Some(json_views(items@)),
            None => items_in(field(j@, key@)) is None,
        }),
{
    match j.get(key) {
        Some(v) => v.as_array(),
        None => None,
    }
}

/// The token count under `key` of a usage report.
fn count_under(usage: &Json, key: &str) -> (r: u64)
    ensures
        r == count(usage@, key@),
{
    match usage.get(key) {
        Some(v) => match v.as_u64() {
            Some(n) => n,
            None => 0,
        },
        None => 0,
    }
}

/// The stop reason that stands for a `finish_reason`.
fn stop_reason_text(finish: &str) -> (r: String)
    ensures
        r@ == stop_reason(finish@),
{
    if same(finish, "stop") {
        owned("end_turn")
    } else if same(finish, "tool_calls") {
        owned("tool_use")
    } else if same(finish, "length") {
        owned("max_tokens")
    } else {
        owned(finish)
    }
}

impl ChatStream {
    /// A decoder that has seen nothing.
    pub fn new() -> (r: ChatStream)
        ensures
            r.buffer@ == Seq::<char>::empty(),
            r@ == (ChatView { tool_id: seq![], input_tokens: 0, output_tokens: 0 }),
    {
        let r = ChatStream {
            buffer: String::new(),
            tool_id: String::new(),
            input_tokens: 0,
            output_tokens: 0,
        };
        assert(r@.tool_id =~= seq![]);
        r
    }

    /// Handles one entry of `tool_calls`.
    fn take_call(&mut self, call: &Json, events: &mut Vec<StreamEvent>)
        ensures
            final(self)@ == (ChatView { tool_id: call_step(old(self)@.tool_id, call@).0, ..old(self)@ }),
            final(self).buffer == old(self).buffer,
            event_views(final(events)@) == event_views(old(events)@) + call_step(
                old(self)@.tool_id,
                call@,
            ).1,
    {
        let ghost sent = event_views(events@);
        let ghost open = self.tool_id@;
        let ghost started = {
            let name = match string_in(under(field(call@, "function"@), "name"@)) {
                Some(name) => name,
                None => seq![],
            };
            match string_in(field(call@, "id"@)) {
                Some(id) => (
                    id,
                    (if open.len() == 0 {
                        seq![]
                    } else {
                        seq![Event::ToolUseEnd]
                    }).push(Event::ToolUseStart { id, name }),
                ),
                None => (open, seq![]),
            }
        };
        match text_under(call, "id") {
            Some(id) => {
                if !self.tool_id.as_str().is_empty() {
                    emit(events, Event::ToolUseEnd);
                }
                self.tool_id = owned(id);
                let name = match inner_text(call, "function", "name") {
                    Some(name) => owned(name),
                    None => String::new(),
                };
                assert(inner_name_is(name@, call@));
                emit(events, Event::ToolUseStart { id: owned(id), name });
            },
            None => {},
        }
        assert(self.tool_id@ == started.0);
        assert(event_views(events@) =~= sent + started.1);
        match inner_text(call, "function", "arguments") {
            Some(args) => {
                emit(events, Event::ToolInputDelta(owned(args)));
                assert(event_views(events@) =~= sent + started.1.push(
                    Event::ToolInputDelta(args@),
                ));
            },
            None => {},
        }
    }

    /// Handles the entries of `tool_calls`.
    fn take_calls(&mut self, calls: &Vec<Json>, events: &mut Vec<StreamEvent>)
        ensures
            final(self)@ == (ChatView {
                tool_id: calls_step(old(self)@.tool_id, json_views(calls@), calls@.len() as int).0,
                ..old(self)@
            }),
            final(self).buffer == old(self).buffer,
            event_views(final(events)@) == event_views(old(events)@) + calls_step(
                old(self)@.tool_id,
                json_views(calls@),
                calls@.len() as int,
            ).1,
    {
        let ghost start = self@;
        let ghost sent = event_views(events@);
        let mut i: usize = 0;
        assert(event_views(events@) =~= sent + seq![]);
        while i < calls.len()
            invariant
                i <= calls@.len(),
                self.buffer == old(self).buffer,
                self@ == (ChatView {
                    tool_id: calls_step(start.tool_id, json_views(calls@), i as int).0,
                    ..start
                }),
                event_views(events@) == sent + calls_step(
                    start.tool_id,
                    json_views(calls@),
                    i as int,
                ).1,
            decreases calls@.len() - i,
        {
            self.take_call(&calls[i], events);
            i = i + 1;
            assert(event_views(events@) =~= sent + calls_step(
                start.tool_id,
                json_views(calls@),
                i as int,
            ).1);
        }
    }

    /// Handles one choice.
    fn take_choice(&mut self, choice: &Json, events: &mut Vec<StreamEvent>)
        ensures
            final(self)@ == (ChatView {
                tool_id: choice_step(old(self)@.tool_id, choice@).0,
                ..old(self)@
            }),
            final(self).buffer == old(self).buffer,
            event_views(final(events)@) == event_views(old(events)@) + choice_step(
                old(self)@.tool_id,
                choice@,
            ).1,
    {
        let ghost sent = event_views(events@);
        let ghost open = self.tool_id@;
        assert(sent + seq![] =~= sent);
        let delta = match choice.get("delta") {
            Some(delta) => delta,
            None => {
                return ;
            },
        };
        let ghost said: Seq<EventView> = match string_in(field(delta@, "content"@)) {
            Some(content) => if content.len() == 0 {
                seq![]
            } else {
                seq![Event::TextDelta(content)]
            },
            None => seq![],
        };
        match text_under(delta, "content") {
            Some(content) => {
                if !content.is_empty() {
                    emit(events, Event::TextDelta(owned(content)));
                }
            },
            None => {},
        }
        assert(event_views(events@) =~= sent + said);
        let ghost called = match items_in(field(delta@, "tool_calls"@)) {
            Some(calls) => calls_step(open, calls, calls.len() as int),
            None => (open, seq![]),
        };
        match items_under(delta, "tool_calls") {
            Some(calls) => {
                self.take_calls(calls, events);
            },
            None => {},
        }
        assert(self.tool_id@ == called.0);
        assert(event_views(events@) =~= sent + (said + called.1));
        match text_under(choice, "finish_reason") {
            Some(finish) => {
                if !self.tool_id.as_str().is_empty() {
                    emit(events, Event::ToolUseEnd);
                    self.tool_id = String::new();
                }
                assert(self.tool_id@ =~= seq![]);
                emit(events, Event::MessageEnd { stop_reason: Some(stop_reason_text(finish)) });
                assert(event_views(events@) =~= sent + choice_step(open, choice@).1);
            },
            None => {},
        }
    }

    /// Handles one JSON value of the stream.
    pub fn take_value(&mut self, value: &Json, events: &mut Vec<StreamEvent>)
        ensures
            final(self)@ == value_step(old(self)@, value@).0,
            final(self).buffer == old(self).buffer,
            event_views(final(events)@) == event_views(old(events)@) + value_step(
                old(self)@,
                value@,
            ).1,
    {
        let ghost sent = event_views(events@);
        let ghost start = self@;
        match value.get("usage") {
            Some(usage) => {
                self.input_tokens = count_under(usage, "prompt_tokens");
                self.output_tokens = count_under(usage, "completion_tokens");
            },
            None => {},
        }
        let ghost counted = self@;
        assert(sent + seq![] =~= sent);
        match items_under(value, "choices") {
            Some(choices) => {
                let mut i: usize = 0;
                while i < choices.len()
                    invariant
                        i <= choices@.len(),
                        counted.tool_id == start.tool_id,
                        self.buffer == old(self).buffer,
                        self@ == (ChatView {
                            tool_id: choices_step(
                                start.tool_id,
                                json_views(choices@),
                                i as int,
                            ).0,
                            ..counted
                        }),
                        event_views(events@) == sent + choices_step(
                            start.tool_id,
                            json_views(choices@),
                            i as int,
                        ).1,
                    decreases choices@.len() - i,
                {
                    self.take_choice(&choices[i], events);
                    i = i + 1;
                    assert(event_views(events@) =~= sent + choices_step(
                        start.tool_id,
                        json_views(choices@),
                        i as int,
                    ).1);
                }
            },
            None => {},
        }
    }

    /// Handles one line; says whether it ends the stream.
    fn take_line(&mut self, line: &str, events: &mut Vec<StreamEvent>) -> (done: bool)
        ensures
            done == is_done(line@),
            final(self).buffer == old(self).buffer,
            done ==> final(self)@ == old(self)@,
            done ==> event_views(final(events)@) == event_views(old(events)@) + done_events(
                old(self)@,
            ),
            !done ==> final(self)@ == line_step(old(self)@, line@).0,
            !done ==> event_views(final(events)@) == event_views(old(events)@) + line_step(
                old(self)@,
                line@,
            ).1,
    {
        let ghost sent = event_views(events@);
        assert(sent + seq![] =~= sent);
        if line.is_empty() || starts_with(line, ":") {
            return false;
        }
        match sse_data_line(line) {
            Some(data) => {
                if same(trim(data), "[DONE]") {
                    if self.input_tokens > 0 || self.output_tokens > 0 {
                        emit(
                            events,
                            Event::TokenUsage {
                                input_tokens: Some(self.input_tokens),
                                output_tokens: Some(self.output_tokens),
                                cache_creation_input_tokens: None,
                                cache_read_input_tokens: None,
                            },
                        );
                    }
                    emit(events, Event::MessageEnd { stop_reason: None });
                    assert(event_views(events@) =~= sent + done_events(self@));
                    return true;
                }
                match parse(data) {
                    Some(value) => {
                        self.take_value(&value, events);
                    },
                    None => {},
                }
                false
            },
            None => false,
        }
    }

    /// Handles the complete lines of the buffer, up to one that ends the stream;
    /// says whether one did.
    fn take_lines(&mut self, events: &mut Vec<StreamEvent>) -> (done: bool)
        requires
            old(events)@.len() == 0,
        ensures
            ({
                let p = text_step(old(self)@, old(self).buffer@);
                &&& final(self)@ == p.chat
                &&& final(self).buffer@ == p.rest
                &&& event_views(final(events)@) == p.events
                &&& done == p.done
            }),
    {
        let cs = chars_of(self.buffer.as_str());
        let mut feed: Vec<char> = Vec::new();
        feed.push('\n');
        let ghost text = self.buffer@;
        let ghost whole = text_step(self@, text);
        let mut start: usize = 0;
        assert(text.skip(0) =~= text);
        assert(feed@ =~= seq!['\n']);
        assert(whole.events =~= event_views(events@) + text_step(self@, text.skip(0)).events);
        loop
            invariant
                cs@ == text,
                feed@ == seq!['\n'],
                start <= cs.len(),
                whole == text_step(old(self)@, old(self).buffer@),
                ({
                    let later = text_step(self@, text.skip(start as int));
                    &&& whole.chat == later.chat
                    &&& whole.rest == later.rest
                    &&& whole.done == later.done
                    &&& whole.events == event_views(events@) + later.events
                }),
            decreases cs@.len() - start,
        {
            let ghost rest = text.skip(start as int);
            let ghost before = self@;
            let ghost sent = event_views(events@);
            proof {
                lemma_position_shift(text, seq!['\n'], start as int);
                lemma_position_from(text, seq!['\n'], start as int);
            }
            match find_from(&cs, &feed, start) {
                Some(end) => {
                    let part = text_of(&cs, start, end);
                    let line = trim_end_of(part.as_str(), '\r');
                    assert(rest.take(end - start) =~= part@);
                    assert(rest.skip(end - start + 1) =~= text.skip(end + 1));
                    if self.take_line(line, events) {
                        self.buffer = text_of(&cs, end + 1, cs.len());
                        assert(self.buffer@ =~= text.skip(end + 1));
                        assert(self@ =~= before);
                        assert(whole.events =~= event_views(events@));
                        return true;
                    }
                    start = end + 1;
                    assert(whole.events =~= event_views(events@) + text_step(
                        self@,
                        text.skip(start as int),
                    ).events);
                },
                None => {
                    let ghost kept = self@;
                    self.buffer = text_of(&cs, start, cs.len());
                    assert(self.buffer@ =~= rest);
                    assert(self@ =~= kept);
                    assert(whole.events =~= event_views(events@));
                    return false;
                },
            }
        }
    }

    /// Handles a piece of the reply's text.
    pub fn receive(&mut self, text: &str) -> (r: Step)
        ensures
            ({
                let p = text_step(old(self)@, old(self).buffer@ + text@);
                &&& final(self)@ == p.chat
                &&& final(self).buffer@ == p.rest
                &&& r@ == received(p)
            }),
    {
        let ghost before = self@;
        self.buffer.append(text);
        assert(self@ =~= before);
        let mut events: Vec<StreamEvent> = Vec::new();
        if self.take_lines(&mut events) {
            Step {
                events,
                error: None,
                usage: Some((self.input_tokens, self.output_tokens)),
                next: Next::Finish,
            }
        } else {
            Step { events, error: None, usage: None, next: Next::Wait }
        }
    }

    /// Handles what came of one read of the reply's body.
    pub fn step(&mut self, read: Read<Vec<u8>>, idle_secs: u64) -> (r: Step)
        ensures
            (match read {
                Read::Piece(bytes) => {
                    let p = text_step(old(self)@, old(self).buffer@ + utf8_lossy(bytes@));
                    &&& final(self)@ == p.chat
                    &&& final(self).buffer@ == p.rest
                    &&& r@ == received(p)
                },
                Read::Ended => *final(self) == *old(self) && r@ == (StepView {
                    events: seq![Event::MessageEnd { stop_reason: None }],
                    error: None,
                    usage: None,
                    next: Next::Finish,
                }),
                Read::Failed(error) => *final(self) == *old(self) && r@ == silent(
                    Next::Fail(read_failure(error@)),
                ),
                Read::TimedOut => *final(self) == *old(self) && r@ == silent(
                    Next::Fail(idle_failure(idle_secs)),
                ),
            }),
    {
        match read {
            Read::Piece(bytes) => {
                let text = from_utf8_lossy(bytes.as_slice());
                self.receive(text.as_str())
            },
            Read::Ended => {
                let mut events: Vec<StreamEvent> = Vec::new();
                emit(&mut events, Event::MessageEnd { stop_reason: None });
                assert(event_views(events@) =~= seq![Event::MessageEnd { stop_reason: None }]);
                Step { events, error: None, usage: None, next: Next::Finish }
            },
            Read::Failed(error) => quiet(Next::Fail(read_failure_text(error.as_str()))),
            Read::TimedOut => quiet(Next::Fail(idle_failure_text(idle_secs))),
        }
    }
}

/// Whether `name` is the function name of a call.
spec fn inner_name_is(name: Seq<char>, call: JsonView) -> bool {
    name =~= match string_in(under(field(call, "function"@), "name"@)) {
        Some(name) => name,
        None => seq![],
    }
}

/// Whether a tool call is open after events, where `open` says whether one is
/// before them. `None`: a call begins inside another one, one ends that has not
/// begun, or a reason to stop comes while one is open.
pub open spec fn open_after(open: bool, events: Seq<EventView>) -> Option<bool>
    decreases events.len(),
{
    if events.len() == 0 {
        Some(open)
    } else {
        match (open_after(open, events.drop_last()), events.last()) {
            (Some(true), Event::ToolUseStart { .. }) => None,
            (Some(false), Event::ToolUseEnd) => None,
            (Some(true), Event::MessageEnd { stop_reason: Some(_) }) => None,
            (Some(_), Event::ToolUseStart { .. }) => Some(true),
            (Some(_), Event::ToolUseEnd) => Some(false),
            (before, _) => before,
        }
    }
}

/// Whether no tool call in the first `n` entries has an empty id.
pub open spec fn calls_named(calls: Seq<JsonView>, n: int) -> bool {
    forall|i: int|
        0 <= i < n ==> (string_in(field(#[trigger] calls[i], "id"@)) matches Some(id) ==> id.len()
            > 0)
}

/// Whether no tool call in a value of the stream has an empty id.
pub open spec fn value_named(value: JsonView) -> bool {
    items_in(field(value, "choices"@)) matches Some(choices) ==> (forall|i: int|
        0 <= i < choices.len() ==> (items_in(
            under(field(#[trigger] choices[i], "delta"@), "tool_calls"@),
        ) matches Some(calls) ==> calls_named(calls, calls.len() as int)))
}

proof fn lemma_open_after_more(open: bool, a: Seq<EventView>, b: Seq<EventView>)
    ensures
        open_after(open, a + b) == (match open_after(open, a) {
            Some(between) => open_after(between, b),
            None => None,
        }),
    decreases b.len(),
{
    if b.len() == 0 {
        assert(a + b =~= a);
    } else {
        assert((a + b).drop_last() =~= a + b.drop_last());
        lemma_open_after_more(open, a, b.drop_last());
        assert((a + b).last() == b.last());
    }
}

proof fn lemma_open_after_one(open: bool, event: EventView)
    ensures
        open_after(open, seq![event]) == (match event {
            Event::ToolUseStart { .. } => if open {
                None
            } else {
                Some(true)
            },
            Event::ToolUseEnd => if open {
                Some(false)
            } else {
                None
            },
            Event::MessageEnd { stop_reason: Some(_) } => if open {
                None
            } else {
                Some(false)
            },
            _ => Some(open),
        }),
{
    assert(seq![event].drop_last() =~= seq![]);
    assert(open_after(open, seq![event].drop_last()) == Some(open));
}

proof fn lemma_call_opens(open: Seq<char>, call: JsonView)
    requires
        string_in(field(call, "id"@)) matches Some(id) ==> id.len() > 0,
    ensures
        open_after(open.len() > 0, call_step(open, call).1) == Some(
            call_step(open, call).0.len() > 0,
        ),
{
    let function = field(call, "function"@);
    let name = match string_in(under(function, "name"@)) {
        Some(name) => name,
        None => seq![],
    };
    let was = open.len() > 0;
    let none: Seq<EventView> = seq![];
    assert(open_after(was, none) == Some(was));
    match string_in(field(call, "id"@)) {
        Some(id) => {
            let start: EventView = Event::ToolUseStart { id, name };
            let end: EventView = Event::ToolUseEnd;
            lemma_open_after_one(was, end);
            lemma_open_after_one(false, start);
            let ended = if open.len() == 0 {
                none
            } else {
                seq![end]
            };
            assert(open_after(was, ended) == Some(false));
            let started = ended.push(start);
            assert(started =~= ended + seq![start]);
            lemma_open_after_more(was, ended, seq![start]);
            assert(open_after(was, started) == Some(true));
            match string_in(under(function, "arguments"@)) {
                Some(args) => {
                    let fed: EventView = Event::ToolInputDelta(args);
                    lemma_open_after_one(true, fed);
                    assert(started.push(fed) =~= started + seq![fed]);
                    lemma_open_after_more(was, started, seq![fed]);
                },
                None => {},
            }
        },
        None => {
            match string_in(under(function, "arguments"@)) {
                Some(args) => {
                    let fed: EventView = Event::ToolInputDelta(args);
                    lemma_open_after_one(was, fed);
                    assert(none.push(fed) =~= seq![fed]);
                },
                None => {},
            }
        },
    }
}

proof fn lemma_calls_open(open: Seq<char>, calls: Seq<JsonView>, n: int)
    requires
        0 <= n <= calls.len(),
        calls_named(calls, n),
    ensures
        open_after(open.len() > 0, calls_step(open, calls, n).1) == Some(
            calls_step(open, calls, n).0.len() > 0,
        ),
    decreases n,
{
    if n > 0 {
        lemma_calls_open(open, calls, n - 1);
        let before = calls_step(open, calls, n - 1);
        lemma_call_opens(before.0, calls[n - 1]);
        lemma_open_after_more(open.len() > 0, before.1, call_step(before.0, calls[n - 1]).1);
    }
}

proof fn lemma_choice_opens(open: Seq<char>, choice: JsonView)
    requires
        items_in(under(field(choice, "delta"@), "tool_calls"@)) matches Some(calls) ==> calls_named(
            calls,
            calls.len() as int,
        ),
    ensures
        open_after(open.len() > 0, choice_step(open, choice).1) == Some(
            choice_step(open, choice).0.len() > 0,
        ),
{
    match field(choice, "delta"@) {
        None => {},
        Some(delta) => {
            let was = open.len() > 0;
            let none: Seq<EventView> = seq![];
            assert(open_after(was, none) == Some(was));
            let said: Seq<EventView> = match string_in(field(delta, "content"@)) {
                Some(content) => if content.len() == 0 {
                    seq![]
                } else {
                    seq![Event::TextDelta(content)]
                },
                None => seq![],
            };
            match string_in(field(delta, "content"@)) {
                Some(content) => {
                    lemma_open_after_one(was, Event::TextDelta(content));
                },
                None => {},
            }
            assert(open_after(was, said) == Some(was));
            let called = match items_in(field(delta, "tool_calls"@)) {
                Some(calls) => {
                    lemma_calls_open(open, calls, calls.len() as int);
                    calls_step(open, calls, calls.len() as int)
                },
                None => (open, none),
            };
            let so_far = said + called.1;
            lemma_open_after_more(was, said, called.1);
            assert(open_after(was, so_far) == Some(called.0.len() > 0));
            match string_in(field(choice, "finish_reason"@)) {
                None => {},
                Some(finish) => {
                    let end: EventView = Event::ToolUseEnd;
                    let last: EventView = Event::MessageEnd {
                        stop_reason: Some(stop_reason(finish)),
                    };
                    let closed = if called.0.len() == 0 {
                        none
                    } else {
                        seq![end]
                    };
                    lemma_open_after_one(true, end);
                    assert(open_after(called.0.len() > 0, closed) == Some(false));
                    lemma_open_after_more(was, so_far, closed);
                    lemma_open_after_one(false, last);
                    assert((so_far + closed).push(last) =~= (so_far + closed) + seq![last]);
                    lemma_open_after_more(was, so_far + closed, seq![last]);
                },
            }
        },
    }
}

proof fn lemma_choices_open(open: Seq<char>, choices: Seq<JsonView>, n: int)
    requires
        0 <= n <= choices.len(),
        forall|i: int|
            0 <= i < n ==> (items_in(
                under(field(#[trigger] choices[i], "delta"@), "tool_calls"@),
            ) matches Some(calls) ==> calls_named(calls, calls.len() as int)),
    ensures
        open_after(open.len() > 0, choices_step(open, choices, n).1) == Some(
            choices_step(open, choices, n).0.len() > 0,
        ),
    decreases n,
{
    if n > 0 {
        lemma_choices_open(open, choices, n - 1);
        let before = choices_step(open, choices, n - 1);
        lemma_choice_opens(before.0, choices[n - 1]);
        lemma_open_after_more(
            open.len() > 0,
            before.1,
            choice_step(before.0, choices[n - 1]).1,
        );
    }
}

proof fn lemma_value_opens(st: ChatView, value: JsonView)
    requires
        value_named(value),
    ensures
        open_after(st.tool_id.len() > 0, value_step(st, value).1) == Some(
            value_step(st, value).0.tool_id.len() > 0,
        ),
{
    match items_in(field(value, "choices"@)) {
        Some(choices) => {
            lemma_choices_open(st.tool_id, choices, choices.len() as int);
        },
        None => {
            let none: Seq<EventView> = seq![];
            assert(open_after(st.tool_id.len() > 0, none) == Some(st.tool_id.len() > 0));
        },
    }
}

/// Whether no tool call in the value of a line has an empty id.
pub open spec fn line_named(line: Seq<char>) -> bool {
    data_of(line) matches Some(data) ==> (parsed_json(data) matches Some(value) ==> value_named(
        value,
    ))
}

/// Whether no tool call in the complete lines of a text, up to one that ends the
/// stream, has an empty id.
pub open spec fn text_named(text: Seq<char>) -> bool
    decreases text.len(),
{
    match position(text, seq!['\n']) {
        Some(i) => if 0 <= i < text.len() {
            let line = trimmed_end_of(text.take(i), '\r');
            is_done(line) || (line_named(line) && text_named(text.skip(i + 1)))
        } else {
            true
        },
        None => true,
    }
}

proof fn lemma_done_opens(st: ChatView, open: bool)
    ensures
        open_after(open, done_events(st)) == Some(open),
{
    let end: EventView = Event::MessageEnd { stop_reason: None };
    let usage: EventView = Event::TokenUsage {
        input_tokens: Some(st.input_tokens),
        output_tokens: Some(st.output_tokens),
        cache_creation_input_tokens: None,
        cache_read_input_tokens: None,
    };
    lemma_open_after_one(open, end);
    lemma_open_after_one(open, usage);
    lemma_open_after_more(open, seq![usage], seq![end]);
    assert(seq![usage, end] =~= seq![usage] + seq![end]);
}

/// Tool calls reach the consumer one after the other, however many lines they
/// take: none begins before the last one has ended, none ends that has not begun,
/// and a reason to stop comes only while none is open. A call with an empty id is
/// the exception: it begins and is never ended.
pub proof fn law_tool_calls_begin_and_end(st: ChatView, text: Seq<char>)
    requires
        text_named(text),
    ensures
        open_after(st.tool_id.len() > 0, text_step(st, text).events) == Some(
            text_step(st, text).chat.tool_id.len() > 0,
        ),
    decreases text.len(),
{
    let was = st.tool_id.len() > 0;
    let none: Seq<EventView> = seq![];
    assert(open_after(was, none) == Some(was));
    match position(text, seq!['\n']) {
        Some(i) => {
            if 0 <= i < text.len() {
                let line = trimmed_end_of(text.take(i), '\r');
                let rest = text.skip(i + 1);
                if is_done(line) {
                    lemma_done_opens(st, was);
                } else {
                    match data_of(line) {
                        Some(data) => match parsed_json(data) {
                            Some(value) => {
                                lemma_value_opens(st, value);
                            },
                            None => {},
                        },
                        None => {},
                    }
                    let step = line_step(st, line);
                    law_tool_calls_begin_and_end(step.0, rest);
                    lemma_open_after_more(was, step.1, text_step(step.0, rest).events);
                }
            }
        },
        None => {},
    }
}

} // verus!
