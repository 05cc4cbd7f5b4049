//! What the three decoders of reply streams have in common.

use crate::message::{event_views, text_option, EventView, StreamEvent};
use crate::text::{begins, owned, strip_prefix, to_decimal};
use vstd::prelude::*;

verus! {

/// What came of waiting for the next piece of a stream.
#[derive(Debug)]
pub enum Read<T> {
    /// A piece arrived.
    Piece(T),
    /// The stream ended.
    Ended,
    /// Reading failed, with this message.
    Failed(String),
    /// Nothing arrived for as long as a stream may stay idle.
    TimedOut,
}

/// What to do after a piece of a stream has been handled.
#[derive(Debug, PartialEq)]
pub enum Next<S> {
    /// Wait for the next piece.
    Wait,
    /// The reply is complete.
    Finish,
    /// The reply failed, with this message.
    Fail(S),
}

/// The model of what to do next.
pub open spec fn next_view(next: Next<String>) -> Next<Seq<char>> {
    match next {
        Next::Wait => Next::Wait,
        Next::Finish => Next::Finish,
        Next::Fail(t) => Next::Fail(t@),
    }
}

/// What a decoder makes of one read.
#[derive(Debug)]
pub struct Step {
    /// The events for the consumer, in order.
    pub events: Vec<StreamEvent>,
    /// The message of an error for the consumer, in place of an event.
    pub error: Option<String>,
    /// The input and output tokens of a request that is to be counted.
    pub usage: Option<(u64, u64)>,
    pub next: Next<String>,
}

/// The model of [`Step`].
pub struct StepView {
    pub events: Seq<EventView>,
    pub error: Option<Seq<char>>,
    pub usage: Option<(u64, u64)>,
    pub next: Next<Seq<char>>,
}

impl View for Step {
    type V = StepView;

    open spec fn view(&self) -> StepView {
        StepView {
            events: event_views(self.events@),
            error: text_option(self.error),
            usage: self.usage,
            next: next_view(self.next),
        }
    }
}

/// A step that sends nothing, no error either, and ends with `next`.
pub open spec fn silent(next: Next<Seq<char>>) -> StepView {
    StepView { events: seq![], error: None, usage: None, next }
}

/// A step that sends nothing.
pub fn quiet(next: Next<String>) -> (r: Step)
    ensures
        r@ == silent(next_view(next)),
{
    let r = Step { events: Vec::new(), error: None, usage: None, next };
    assert(event_views(r.events@) =~= seq![]);
    r
}

/// The message of a stream whose reading failed with `error`.
pub open spec fn read_failure(error: Seq<char>) -> Seq<char> {
    "Stream error: "@ + error
}

/// The message of a stream that stayed idle for `secs` seconds.
pub open spec fn idle_failure(secs: u64) -> Seq<char> {
    "Stream read timeout: no data received for "@ + crate::text::decimal(secs as nat)
        + " seconds"@
}

/// The message of a stream that ended before anything arrived.
pub open spec fn empty_failure() -> Seq<char> {
    "Copilot returned an empty stream"@
}

/// The message of a stream whose reading failed with `error`.
pub fn read_failure_text(error: &str) -> (r: String)
    ensures
        r@ == read_failure(error@),
{
    let mut r = owned("Stream error: ");
    r.append(error);
    r
}

/// The message of a stream that stayed idle for `secs` seconds.
pub fn idle_failure_text(secs: u64) -> (r: String)
    ensures
        r@ == idle_failure(secs),
{
    let mut r = owned("Stream read timeout: no data received for ");
    r.append(to_decimal(secs).as_str());
    r.append(" seconds");
    r
}

/// The payload of a `data` line: what follows the colon and at most one space.
pub open spec fn data_of(line: Seq<char>) -> Option<Seq<char>> {
    if begins(line, "data: "@) {
        Some(line.skip("data: "@.len() as int))
    } else if begins(line, "data:"@) {
        Some(line.skip("data:"@.len() as int))
    } else {
        None
    }
}

/// The payload of a `data` line; nothing for any other line.
pub fn sse_data_line<'a>(line: &'a str) -> (r: Option<&'a str>)
    ensures
        (match r {
            Some(data) => data_of(line@) == Some(data@),
            None => data_of(line@) is None,
        }),
{
    match strip_prefix(line, "data: ") {
        Some(data) => Some(data),
        None => strip_prefix(line, "data:"),
    }
}

} // verus!
