//! Following of the event stream that the `/responses` route serves.
//!
//! The events come decoded; what is left to decide is what the end of the stream
//! means.

use crate::message::{emit, event_views, StreamEvent};
use crate::stream::{
    empty_failure, idle_failure, idle_failure_text, quiet, silent, Next, Read, Step, StepView,
};
use crate::text::owned;
use vstd::prelude::*;

verus! {

/// The follower of one reply.
pub struct ResponsesStream {
    pub saw_any_event: bool,
}

impl ResponsesStream {
    /// A follower that has seen nothing.
    pub fn new() -> (r: ResponsesStream)
        ensures
            !r.saw_any_event,
    {
        ResponsesStream { saw_any_event: false }
    }

    /// Handles what came of waiting for the next event. An event passes on as it
    /// is. So does an error that the event stream itself yields, which counts as
    /// an event: the consumer gets it and the stream goes on.
    pub fn step(&mut self, read: Read<StreamEvent>, idle_secs: u64) -> (r: Step)
        ensures
            (match read {
                Read::Piece(event) => final(self).saw_any_event && r@ == (StepView {
                    events: seq![event@],
                    error: None,
                    usage: None,
                    next: Next::Wait,
                }),
                Read::Failed(error) => final(self).saw_any_event && r@ == (StepView {
                    events: seq![],
                    error: Some(error@),
                    usage: None,
                    next: Next::Wait,
                }),
                Read::Ended => *final(self) == *old(self) && r@ == silent(
                    if old(self).saw_any_event {
                        Next::Finish
                    } else {
                        Next::Fail(empty_failure())
                    },
                ),
                Read::TimedOut => *final(self) == *old(self) && r@ == silent(
                    Next::Fail(idle_failure(idle_secs)),
                ),
            }),
    {
        match read {
            Read::Piece(event) => {
                self.saw_any_event = true;
                let mut events: Vec<StreamEvent> = Vec::new();
                let ghost sent = event@;
                emit(&mut events, event);
                assert(event_views(events@) =~= seq![sent]);
                Step { events, error: None, usage: None, next: Next::Wait }
            },
            Read::Failed(error) => {
                self.saw_any_event = true;
                let events: Vec<StreamEvent> = Vec::new();
                assert(event_views(events@) =~= seq![]);
                Step { events, error: Some(error), usage: None, next: Next::Wait }
            },
            Read::Ended => {
                if self.saw_any_event {
                    quiet(Next::Finish)
                } else {
                    quiet(Next::Fail(owned("Copilot returned an empty stream")))
                }
            },
            Read::TimedOut => quiet(Next::Fail(idle_failure_text(idle_secs))),
        }
    }
}

} // verus!
