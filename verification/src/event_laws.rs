//! What holds of every stream of server-sent events: each event is read as it was
//! written, one after the other.

use crate::message::EventView;
use crate::sse::{event_of, next_event, payload_of, payload_step, SseStateView, SseView};
use crate::stream_messages::events_step;
use crate::text::{begins, lemma_position, lines_of, occurs, occurs_at, position, without_return};
use crate::text_laws::law_lines_stand_between_feeds;
use vstd::prelude::*;

verus! {

/// An event as a server writes it: its name, its data and a blank line.
pub open spec fn written(name: Seq<char>, data: Seq<char>) -> Seq<char> {
    "event: "@ + name + seq!['\n'] + ("data: "@ + data) + seq!['\n', '\n']
}

proof fn lemma_words()
    ensures
        "event: "@.len() == 7,
        "data: "@.len() == 6,
        "data: "@[0] == 'd',
        "event: "@[0] == 'e',
        !"event: "@.contains('\n'),
        !"data: "@.contains('\n'),
{
    reveal_strlit("event: ");
    reveal_strlit("data: ");
}

proof fn lemma_prefixed(front: Seq<char>, back: Seq<char>)
    requires
        !front.contains('\n'),
        !back.contains('\n'),
    ensures
        !(front + back).contains('\n'),
        (front + back).skip(front.len() as int) == back,
        begins(front + back, front),
{
    let all = front + back;
    assert forall|i: int| 0 <= i < all.len() implies all[i] != '\n' by {
        if i < front.len() {
            assert(front.contains(front[i]));
        } else {
            assert(back.contains(back[i - front.len()]));
        }
    }
    assert(all.skip(front.len() as int) =~= back);
    assert(all.subrange(0, front.len() as int) =~= front);
}

proof fn lemma_blank_line(a: Seq<char>, b: Seq<char>, rest: Seq<char>)
    requires
        !a.contains('\n'),
        !b.contains('\n'),
        b.len() > 0,
    ensures
        ({
            let text = a + seq!['\n'] + b + seq!['\n', '\n'] + rest;
            let at = (a.len() + 1 + b.len()) as int;
            &&& position(text, seq!['\n', '\n']) == Some(at)
            &&& text.take(at) == a + seq!['\n'] + b
            &&& text.skip(at + 2) == rest
        }),
{
    let blank = seq!['\n', '\n'];
    let text = a + seq!['\n'] + b + blank + rest;
    let at = (a.len() + 1 + b.len()) as int;
    assert(text.subrange(at, at + 2) =~= blank);
    assert(occurs_at(text, blank, at));
    assert(occurs(text, blank));
    lemma_position(text, blank);
    let p = position(text, blank)->0;
    if p < at {
        assert(text.subrange(p, p + 2)[0] == text[p]);
        assert(text.subrange(p, p + 2)[1] == text[p + 1]);
        if p < a.len() {
            assert(a[p] == '\n');
            assert(a.contains('\n'));
        } else if p == a.len() {
            assert(text[p + 1] == b[0]);
            assert(b.contains('\n'));
        } else {
            assert(text[p] == b[p - a.len() - 1]);
            assert(b.contains('\n'));
        }
        assert(false);
    }
    if p > at {
        assert(!occurs_at(text, blank, at));
    }
    assert(text.take(at) =~= a + seq!['\n'] + b);
    assert(text.skip(at + 2) =~= rest);
}

/// An event that was written whole is read whole, with its name and its data, and
/// what follows it is left for the next one.
pub proof fn law_written_event_is_read(name: Seq<char>, data: Seq<char>, rest: Seq<char>)
    requires
        name.len() > 0,
        name.last() != '\r',
        !name.contains('\n'),
        !data.contains('\n'),
    ensures
        next_event(written(name, data) + rest) == (
            Some(SseView { event_type: name, data }),
            rest,
        ),
{
    lemma_words();
    lemma_prefixed("event: "@, name);
    lemma_prefixed("data: "@, data);
    let a = "event: "@ + name;
    let b = "data: "@ + data;
    let text = written(name, data) + rest;
    assert(text =~= a + seq!['\n'] + b + seq!['\n', '\n'] + rest);
    lemma_blank_line(a, b, rest);
    law_lines_stand_between_feeds(a, b);
    law_lines_stand_between_feeds(b, seq![]);
    assert(a.last() == name.last());
    assert(without_return(a) == a);
    let ls = lines_of(a + seq!['\n'] + b);
    assert(ls =~= seq![a, b]);
    assert(event_of(ls, 0) == (SseView { event_type: seq![], data: seq![] }));
    assert(event_of(ls, 1) == (SseView { event_type: name, data: seq![] }));
    assert(!begins(b, "event: "@)) by {
        if begins(b, "event: "@) {
            assert(b.subrange(0, 7)[0] == b[0]);
        }
    }
    assert(event_of(ls, 2) == (SseView { event_type: name, data }));
}

/// A block that names no event and holds no data, such as a comment that keeps the
/// connection open, is taken off with its blank line and says nothing.
pub proof fn law_comments_are_taken_off(line: Seq<char>, rest: Seq<char>)
    requires
        !line.contains('\n'),
        !begins(line, "event: "@),
        !begins(line, "data:"@),
    ensures
        next_event(line + seq!['\n', '\n'] + rest) == (None::<SseView>, rest),
{
    let blank = seq!['\n', '\n'];
    let text = line + blank + rest;
    let at = line.len() as int;
    assert(text.subrange(at, at + 2) =~= blank);
    assert(occurs_at(text, blank, at));
    lemma_position(text, blank);
    let p = position(text, blank)->0;
    if p < at {
        assert(text.subrange(p, p + 2)[0] == text[p]);
        assert(line[p] == '\n');
        assert(false);
    }
    if p > at {
        assert(!occurs_at(text, blank, at));
    }
    assert(text.take(at) =~= line);
    assert(text.skip(at + 2) =~= rest);
    law_lines_stand_between_feeds(line, seq![]);
    let ls = lines_of(line);
    assert(event_of(ls, 0) == (SseView { event_type: seq![], data: seq![] }));
    if line.len() > 0 {
        assert(ls =~= seq![line]);
        assert(!begins(line, "data: "@)) by {
            reveal_strlit("data: ");
            reveal_strlit("data:");
            if begins(line, "data: "@) {
                assert(line.subrange(0, 5) =~= line.subrange(0, 6).take(5));
                assert("data: "@.take(5) =~= "data:"@);
            }
        }
        assert(event_of(ls, 1) == event_of(ls, 0));
    } else {
        assert(ls.len() == 0);
    }
}

/// An event whose blank line has not arrived waits for it.
pub proof fn law_unfinished_event_waits(buffer: Seq<char>)
    requires
        !occurs(buffer, seq!['\n', '\n']),
    ensures
        next_event(buffer) == (None::<SseView>, buffer),
{
    lemma_position(buffer, seq!['\n', '\n']);
}

/// Each event of a stream is handled, in order: what the first one gives stands before
/// what the others give, which go by the state that the first one left.
pub proof fn law_events_are_handled_in_order(
    st: SseStateView,
    name: Seq<char>,
    data: Seq<char>,
    rest: Seq<char>,
)
    requires
        name.len() > 0,
        name.last() != '\r',
        !name.contains('\n'),
        !data.contains('\n'),
    ensures
        ({
            let event = SseView { event_type: name, data };
            let (after, events) = payload_step(
                st,
                payload_of(event),
                false,
                Map::<Seq<char>, String>::empty(),
            );
            let all = events_step(st, written(name, data) + rest);
            let later = events_step(after, rest);
            &&& all.events == events + later.events
            &&& all.state == later.state
            &&& all.rest == later.rest
        }),
{
    law_written_event_is_read(name, data, rest);
}

/// A stream that ends within an event keeps it for later, and nothing is said of it.
pub proof fn law_unfinished_stream_says_nothing(st: SseStateView, buffer: Seq<char>)
    requires
        !occurs(buffer, seq!['\n', '\n']),
    ensures
        events_step(st, buffer).events == Seq::<EventView>::empty(),
        events_step(st, buffer).state == st,
        events_step(st, buffer).rest == buffer,
{
    law_unfinished_event_waits(buffer);
}

} // verus!
