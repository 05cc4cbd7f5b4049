//! Decoding of the event stream that the `/v1/messages` route serves.
//!
//! Copilot serves the Messages API's own events here, so the decoder is the one
//! of [`crate::sse`].

use crate::keyed::TextMap;
use crate::message::{event_views, EventView, StreamEvent};
use crate::sse::{
    fresh_state, next_event, parse_sse_event, payload_of, payload_step, process_sse_event,
    SseStateView, SseStreamState,
};
use crate::stream::{
    empty_failure, idle_failure, idle_failure_text, quiet, read_failure, read_failure_text, silent,
    Next, Read, Step,
};
use crate::text::{
    ascii_lowered, from_utf8_lossy, lemma_position, lemma_position_from, occurs_at, owned, position,
    to_ascii_lowercase, utf8_lossy,
};
use vstd::prelude::*;

verus! {

/// Copilot's Messages route is no OAuth session.
pub const IS_OAUTH: bool = false;

/// What decoding a text has come to.
pub struct Decoded {
    pub state: SseStateView,
    pub rest: Seq<char>,
    pub events: Seq<EventView>,
}

/// What one event of the route does.
pub open spec fn event_step(st: SseStateView, event: crate::sse::SseView) -> (
    SseStateView,
    Seq<EventView>,
) {
    payload_step(st, payload_of(event), IS_OAUTH, Map::empty())
}

/// What the events at the start of `text` do, up to one that is empty.
pub open spec fn events_step(st: SseStateView, text: Seq<char>) -> Decoded
    decreases text.len(),
{
    let (event, rest) = next_event(text);
    match event {
        Some(event) => if rest.len() < text.len() {
            let step = event_step(st, event);
            let later = events_step(step.0, rest);
            Decoded { events: step.1 + later.events, ..later }
        } else {
            Decoded { state: st, rest, events: seq![] }
        },
        None => Decoded { state: st, rest, events: seq![] },
    }
}

/// Whether no event in `text` is empty.
pub open spec fn all_filled(text: Seq<char>) -> bool
    decreases text.len(),
{
    match position(text, seq!['\n', '\n']) {
        Some(i) => {
            let (event, rest) = next_event(text);
            event is Some && (rest.len() < text.len() ==> all_filled(rest))
        },
        None => true,
    }
}

proof fn lemma_blank_in_front(a: Seq<char>, b: Seq<char>)
    requires
        position(a, seq!['\n', '\n']) is Some,
    ensures
        position(a + b, seq!['\n', '\n']) == position(a, seq!['\n', '\n']),
        position(a, seq!['\n', '\n'])->0 + 2 <= a.len(),
        position(a, seq!['\n', '\n'])->0 >= 0,
{
    let n = seq!['\n', '\n'];
    lemma_position(a, n);
    lemma_position_from(a, n, 0);
    let i = position(a, n)->0;
    assert forall|j: int| 0 <= j <= i implies #[trigger] occurs_at(a + b, n, j) == occurs_at(
        a,
        n,
        j,
    ) by {
        assert((a + b).subrange(j, j + 2) =~= a.subrange(j, j + 2));
    }
    assert(occurs_at(a + b, n, i));
    lemma_position_from(a + b, n, 0);
    match position(a + b, n) {
        Some(k) => {
            if k < i {
                assert(occurs_at(a, n, k));
            }
        },
        None => {},
    }
}

/// Where no event is empty, it does not matter where a text is cut into pieces:
/// decoding one piece and then the next sends the same events and leaves the
/// same state as decoding both at once.
pub proof fn law_events_may_arrive_in_pieces(st: SseStateView, a: Seq<char>, b: Seq<char>)
    requires
        all_filled(a),
    ensures
        ({
            let first = events_step(st, a);
            let later = events_step(first.state, first.rest + b);
            events_step(st, a + b) == Decoded { events: first.events + later.events, ..later }
        }),
    decreases a.len(),
{
    match position(a, seq!['\n', '\n']) {
        Some(i) => {
            lemma_blank_in_front(a, b);
            assert((a + b).take(i) =~= a.take(i));
            assert((a + b).skip(i + 2) =~= a.skip(i + 2) + b);
            let event = next_event(a).0->0;
            let step = event_step(st, event);
            law_events_may_arrive_in_pieces(step.0, a.skip(i + 2), b);
            let first = events_step(st, a);
            let later = events_step(first.state, first.rest + b);
            assert(events_step(st, a + b).events =~= first.events + later.events);
        },
        None => {
            let later = events_step(st, a + b);
            assert(seq![] + later.events =~= later.events);
        },
    }
}

/// The decoder of one reply.
pub struct MessagesStream {
    pub buffer: String,
    pub saw_any_data: bool,
    pub state: SseStreamState,
}

/// Appends the events of one step.
fn append_events(events: &mut Vec<StreamEvent>, more: Vec<StreamEvent>)
    ensures
        event_views(final(events)@) == event_views(old(events)@) + event_views(more@),
{
    let ghost before = events@;
    let mut more = more;
    let ghost tail = more@;
    events.append(&mut more);
    assert(event_views(events@) =~= event_views(before) + event_views(tail));
}

impl MessagesStream {
    /// A decoder for the reply to a request for `model`.
    pub fn new(model: &str) -> (r: MessagesStream)
        ensures
            r.buffer@ == Seq::<char>::empty(),
            !r.saw_any_data,
            r.state@ == fresh_state(ascii_lowered(model@)),
    {
        let mut state = SseStreamState::default();
        state.requested_model_base = to_ascii_lowercase(model);
        MessagesStream { buffer: String::new(), saw_any_data: false, state }
    }

    /// Handles the events of the buffer.
    fn take_events(&mut self) -> (r: Vec<StreamEvent>)
        ensures
            ({
                let d = events_step(old(self).state@, old(self).buffer@);
                &&& final(self).state@ == d.state
                &&& final(self).buffer@ == d.rest
                &&& event_views(r@) == d.events
            }),
            final(self).saw_any_data == old(self).saw_any_data,
    {
        let names: TextMap<String> = TextMap::new();
        let ghost whole = events_step(self.state@, self.buffer@);
        let mut events: Vec<StreamEvent> = Vec::new();
        assert(event_views(events@) + whole.events =~= whole.events);
        loop
            invariant
                names@ == Map::<Seq<char>, String>::empty(),
                self.saw_any_data == old(self).saw_any_data,
                whole == events_step(old(self).state@, old(self).buffer@),
                ({
                    let later = events_step(self.state@, self.buffer@);
                    &&& whole.state == later.state
                    &&& whole.rest == later.rest
                    &&& whole.events == event_views(events@) + later.events
                }),
            decreases self.buffer@.len(),
        {
            let ghost text = self.buffer@;
            let ghost before = self.state@;
            let ghost sent = event_views(events@);
            proof {
                lemma_position_from(text, seq!['\n', '\n'], 0);
            }
            match parse_sse_event(&mut self.buffer) {
                Some(event) => {
                    let more = process_sse_event(&event, &mut self.state, IS_OAUTH, &names);
                    append_events(&mut events, more);
                    assert(whole.events =~= event_views(events@) + events_step(
                        self.state@,
                        self.buffer@,
                    ).events);
                },
                None => {
                    assert(whole.events =~= event_views(events@));
                    return events;
                },
            }
        }
    }

    /// Handles a piece of the reply's text.
    pub fn receive(&mut self, text: &str) -> (r: Step)
        ensures
            ({
                let d = events_step(old(self).state@, old(self).buffer@ + text@);
                &&& final(self).state@ == d.state
                &&& final(self).buffer@ == d.rest
                &&& final(self).saw_any_data
                &&& r@ == (crate::stream::StepView {
                    events: d.events,
                    error: None,
                    usage: None,
                    next: Next::Wait,
                })
            }),
    {
        self.saw_any_data = true;
        self.buffer.append(text);
        let events = self.take_events();
        Step { events, error: None, usage: None, next: Next::Wait }
    }

    /// Handles what came of one read of the reply's body.
    pub fn step(&mut self, read: Read<Vec<u8>>, idle_secs: u64) -> (r: Step)
        ensures
            (match read {
                Read::Piece(bytes) => {
                    let d = events_step(
                        old(self).state@,
                        old(self).buffer@ + utf8_lossy(bytes@),
                    );
                    &&& final(self).state@ == d.state
                    &&& final(self).buffer@ == d.rest
                    &&& final(self).saw_any_data
                    &&& r@ == (crate::stream::StepView {
                        events: d.events,
                        error: None,
                        usage: None,
                        next: Next::Wait,
                    })
                },
                Read::Ended => *final(self) == *old(self) && r@ == silent(
                    if old(self).saw_any_data {
                        Next::Finish
                    } else {
                        Next::Fail(empty_failure())
                    },
                ),
                Read::Failed(error) => *final(self) == *old(self) && r@ == silent(
                    Next::Fail(read_failure(error@)),
                ),
                Read::TimedOut => *final(self) == *old(self) && r@ == silent(
                    Next::Fail(idle_failure(idle_secs)),
                ),
            }),
    {
        match read {
            Read::Piece(bytes) => {
                let text = from_utf8_lossy(bytes.as_slice());
                self.receive(text.as_str())
            },
            Read::Ended => {
                if self.saw_any_data {
                    quiet(Next::Finish)
                } else {
                    quiet(Next::Fail(owned("Copilot returned an empty stream")))
                }
            },
            Read::Failed(error) => quiet(Next::Fail(read_failure_text(error.as_str()))),
            Read::TimedOut => quiet(Next::Fail(idle_failure_text(idle_secs))),
        }
    }
}

} // verus!
