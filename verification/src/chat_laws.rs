//! What holds of every conversation that [`crate::chat_messages`] builds.

use crate::chat_messages::{
    answered_after, answers, chat_entries, conversation, is_result_for, message_entries,
    missing_text, output_text, parts_of, results_of, take_result, turn_entries, turn_of,
    user_content, CallView, EntryView, PairingView, TurnView,
};
use crate::message::{BlockView, MessageView, Role};
use vstd::prelude::*;

verus! {

/// How often an assistant entry calls `id`.
pub open spec fn calls_in(calls: Seq<CallView>, id: Seq<char>) -> nat
    decreases calls.len(),
{
    if calls.len() == 0 {
        0
    } else {
        calls_in(calls.drop_last(), id) + if calls.last().id == id {
            1nat
        } else {
            0nat
        }
    }
}

/// How often one entry calls `id`.
pub open spec fn entry_calls(e: EntryView, id: Seq<char>) -> nat {
    match e {
        EntryView::Assistant { calls, .. } => calls_in(calls, id),
        _ => 0,
    }
}

/// How often one entry answers `id`.
pub open spec fn entry_answers(e: EntryView, id: Seq<char>) -> nat {
    match e {
        EntryView::Tool { id: answered, .. } => if answered == id {
            1
        } else {
            0
        },
        _ => 0,
    }
}

/// How often the entries call `id`.
pub open spec fn call_count(es: Seq<EntryView>, id: Seq<char>) -> nat
    decreases es.len(),
{
    if es.len() == 0 {
        0
    } else {
        call_count(es.drop_last(), id) + entry_calls(es.last(), id)
    }
}

/// How often the entries answer `id`.
pub open spec fn answer_count(es: Seq<EntryView>, id: Seq<char>) -> nat
    decreases es.len(),
{
    if es.len() == 0 {
        0
    } else {
        answer_count(es.drop_last(), id) + entry_answers(es.last(), id)
    }
}

/// Whether a block calls `id`.
pub open spec fn is_call_of(block: BlockView, id: Seq<char>) -> bool {
    block matches BlockView::ToolUse { id: called, .. } && called == id
}

/// How often the first `n` blocks call `id`.
pub open spec fn block_calls(blocks: Seq<BlockView>, n: int, id: Seq<char>) -> nat
    decreases n,
{
    if n <= 0 {
        0
    } else {
        block_calls(blocks, n - 1, id) + if is_call_of(blocks[n - 1], id) {
            1nat
        } else {
            0nat
        }
    }
}

/// How often the assistant messages among the first `n` call `id`.
pub open spec fn session_calls(messages: Seq<MessageView>, n: int, id: Seq<char>) -> nat
    decreases n,
{
    if n <= 0 {
        0
    } else {
        session_calls(messages, n - 1, id) + if messages[n - 1].role is Assistant {
            block_calls(messages[n - 1].content, messages[n - 1].content.len() as int, id)
        } else {
            0nat
        }
    }
}

/// Whether every call of the session has an id of its own.
pub open spec fn calls_differ(messages: Seq<MessageView>) -> bool {
    forall|id: Seq<char>| #[trigger] session_calls(messages, messages.len() as int, id) <= 1
}

/// Whether an entry before `p` calls `id`.
pub open spec fn called_before(es: Seq<EntryView>, p: int, id: Seq<char>) -> bool {
    exists|q: int| 0 <= q < p && q < es.len() && #[trigger] entry_calls(es[q], id) > 0
}

/// Whether every answer among the entries follows an entry with the call.
pub open spec fn answers_follow_calls(es: Seq<EntryView>) -> bool {
    forall|p: int, id: Seq<char>|
        0 <= p < es.len() && #[trigger] entry_answers(es[p], id) > 0 ==> called_before(es, p, id)
}

proof fn lemma_call_count_add(a: Seq<EntryView>, b: Seq<EntryView>, id: Seq<char>)
    ensures
        call_count(a + b, id) == call_count(a, id) + call_count(b, id),
        answer_count(a + b, id) == answer_count(a, id) + answer_count(b, id),
    decreases b.len(),
{
    if b.len() == 0 {
        assert(a + b =~= a);
    } else {
        assert((a + b).drop_last() =~= a + b.drop_last());
        lemma_call_count_add(a, b.drop_last(), id);
    }
}

proof fn lemma_counts_one(e: EntryView, id: Seq<char>)
    ensures
        call_count(seq![e], id) == entry_calls(e, id),
        answer_count(seq![e], id) == entry_answers(e, id),
{
    assert(seq![e].drop_last() =~= Seq::<EntryView>::empty());
    assert(call_count(Seq::<EntryView>::empty(), id) == 0);
    assert(answer_count(Seq::<EntryView>::empty(), id) == 0);
}

proof fn lemma_counts_push(es: Seq<EntryView>, e: EntryView, id: Seq<char>)
    ensures
        call_count(es.push(e), id) == call_count(es, id) + entry_calls(e, id),
        answer_count(es.push(e), id) == answer_count(es, id) + entry_answers(e, id),
{
    assert(es.push(e).drop_last() =~= es);
}

proof fn lemma_call_pushed(calls: Seq<CallView>, c: CallView, id: Seq<char>)
    ensures
        calls_in(calls.push(c), id) == calls_in(calls, id) + if c.id == id {
            1nat
        } else {
            0nat
        },
{
    assert(calls.push(c).drop_last() =~= calls);
}

proof fn lemma_counted_call_exists(es: Seq<EntryView>, id: Seq<char>)
    requires
        call_count(es, id) > 0,
    ensures
        called_before(es, es.len() as int, id),
    decreases es.len(),
{
    if entry_calls(es.last(), id) > 0 {
        assert(entry_calls(es[es.len() - 1], id) > 0);
    } else {
        lemma_counted_call_exists(es.drop_last(), id);
        let q = choose|q: int|
            0 <= q < es.drop_last().len() && #[trigger] entry_calls(es.drop_last()[q], id) > 0;
        assert(entry_calls(es[q], id) > 0);
    }
}

/// What the pairing knows after `n` messages, and what the entries show of it.
spec fn paired(messages: Seq<MessageView>, n: int) -> bool {
    let st = conversation(messages, n).0;
    let es = conversation(messages, n).1;
    forall|id: Seq<char>| #[trigger] paired_id(messages, n, st, es, id)
}

spec fn paired_id(
    messages: Seq<MessageView>,
    n: int,
    st: PairingView,
    es: Seq<EntryView>,
    id: Seq<char>,
) -> bool {
    &&& st.seen.contains(id) <==> session_calls(messages, n, id) > 0
    &&& call_count(es, id) == session_calls(messages, n, id)
    &&& st.used.contains(id) ==> st.seen.contains(id)
    &&& st.pending.contains_key(id) ==> !st.seen.contains(id)
    &&& answer_count(es, id) == if st.used.contains(id) {
        1nat
    } else {
        0nat
    }
    &&& st.seen.contains(id) && !st.used.contains(id) ==> answered_after(messages, n - 1, id)
}

proof fn lemma_results(st: PairingView, blocks: Seq<BlockView>, n: int, id: Seq<char>)
    requires
        0 <= n <= blocks.len(),
        st.used.contains(id) ==> st.seen.contains(id),
        st.pending.contains_key(id) ==> !st.seen.contains(id),
    ensures
        ({
            let r = results_of(st, blocks, n);
            let answered = r.0.used.contains(id) && !st.used.contains(id);
            &&& r.0.seen == st.seen
            &&& st.used.contains(id) ==> r.0.used.contains(id)
            &&& r.0.used.contains(id) ==> st.seen.contains(id)
            &&& r.0.pending.contains_key(id) ==> !st.seen.contains(id)
            &&& call_count(r.1, id) == 0
            &&& answer_count(r.1, id) == if answered {
                1nat
            } else {
                0nat
            }
            &&& (exists|k: int| 0 <= k < n && #[trigger] is_result_for(blocks[k], id))
                && st.seen.contains(id) ==> r.0.used.contains(id)
        }),
    decreases n,
{
    if n > 0 {
        lemma_results(st, blocks, n - 1, id);
        let before = results_of(st, blocks, n - 1);
        match blocks[n - 1] {
            BlockView::ToolResult { tool_use_id, content, is_error } => {
                let output = output_text(content, is_error);
                let step = take_result(before.0, tool_use_id, output);
                lemma_call_count_add(before.1, step.1, id);
                if step.1.len() > 0 {
                    assert(step.1 =~= seq![EntryView::Tool { id: tool_use_id, output }]);
                    lemma_counts_one(EntryView::Tool { id: tool_use_id, output }, id);
                }
            },
            _ => {},
        }
        if exists|k: int| 0 <= k < n && #[trigger] is_result_for(blocks[k], id) {
            let k = choose|k: int| 0 <= k < n && #[trigger] is_result_for(blocks[k], id);
            if k < n - 1 {
                assert(is_result_for(blocks[k], id));
            }
        }
    }
}

proof fn lemma_turn(st: PairingView, messages: Seq<MessageView>, at: int, n: int, id: Seq<char>)
    requires
        0 <= at < messages.len(),
        0 <= n <= messages[at].content.len(),
        st.used.contains(id) ==> st.seen.contains(id),
        st.pending.contains_key(id) ==> !st.seen.contains(id),
        (if st.seen.contains(id) {
            1nat
        } else {
            0nat
        }) + block_calls(messages[at].content, n, id) <= 1,
    ensures
        ({
            let t = turn_of(st, messages, at, n);
            let answered = t.pairing.used.contains(id) && !st.used.contains(id);
            &&& t.pairing.seen.contains(id) <==> st.seen.contains(id) || block_calls(
                messages[at].content,
                n,
                id,
            ) > 0
            &&& st.used.contains(id) ==> t.pairing.used.contains(id)
            &&& t.pairing.used.contains(id) ==> t.pairing.seen.contains(id)
            &&& t.pairing.pending.contains_key(id) ==> !t.pairing.seen.contains(id)
            &&& calls_in(t.calls, id) == block_calls(messages[at].content, n, id)
            &&& call_count(t.early, id) == 0
            &&& call_count(t.missing, id) == 0
            &&& answer_count(t.early, id) + answer_count(t.missing, id) == if answered {
                1nat
            } else {
                0nat
            }
            &&& !st.seen.contains(id) && t.pairing.seen.contains(id)
                && !t.pairing.used.contains(id) ==> answered_after(messages, at, id)
            &&& st.seen.contains(id) ==> t.pairing.used.contains(id) == st.used.contains(id)
        }),
    decreases n,
{
    if n > 0 {
        lemma_turn(st, messages, at, n - 1, id);
        let t = turn_of(st, messages, at, n - 1);
        match messages[at].content[n - 1] {
            BlockView::ToolUse { id: called, name, input } => {
                let arguments = crate::chat_messages::arguments_text(input);
                lemma_call_pushed(t.calls, CallView { id: called, name, arguments }, id);
                lemma_counts_push(
                    t.early,
                    EntryView::Tool { id: called, output: t.pairing.pending[called] },
                    id,
                );
                lemma_counts_push(
                    t.missing,
                    EntryView::Tool { id: called, output: missing_text() },
                    id,
                );
            },
            _ => {},
        }
    }
}

proof fn lemma_turn_entries(t: TurnView, id: Seq<char>)
    requires
        t.calls.len() == 0 ==> t.early.len() == 0 && t.missing.len() == 0,
    ensures
        call_count(turn_entries(t), id) == calls_in(t.calls, id) + call_count(t.early, id)
            + call_count(t.missing, id),
        answer_count(turn_entries(t), id) == answer_count(t.early, id) + answer_count(
            t.missing,
            id,
        ),
{
    let first = EntryView::Assistant { text: t.text, calls: t.calls };
    if t.text.len() == 0 && t.calls.len() == 0 {
    } else {
        lemma_counts_one(first, id);
        lemma_call_count_add(seq![first], t.early, id);
        lemma_call_count_add(seq![first] + t.early, t.missing, id);
    }
}

proof fn lemma_turn_shape(st: PairingView, messages: Seq<MessageView>, at: int, n: int)
    ensures
        turn_of(st, messages, at, n).calls.len() == 0 ==> turn_of(st, messages, at, n).early.len()
            == 0 && turn_of(st, messages, at, n).missing.len() == 0,
    decreases n,
{
    if n > 0 {
        lemma_turn_shape(st, messages, at, n - 1);
    }
}

proof fn lemma_session_calls_grow(messages: Seq<MessageView>, n: int, m: int, id: Seq<char>)
    requires
        0 <= n <= m,
    ensures
        session_calls(messages, n, id) <= session_calls(messages, m, id),
    decreases m,
{
    if n < m {
        lemma_session_calls_grow(messages, n, m - 1, id);
    }
}

proof fn lemma_paired(messages: Seq<MessageView>, n: int)
    requires
        0 <= n <= messages.len(),
        calls_differ(messages),
    ensures
        paired(messages, n),
    decreases n,
{
    let now = conversation(messages, n);
    if n == 0 {
        assert forall|id: Seq<char>| #[trigger] paired_id(messages, n, now.0, now.1, id) by {}
    } else {
        lemma_paired(messages, n - 1);
        let before = conversation(messages, n - 1);
        let at = n - 1;
        let blocks = messages[at].content;
        let step = message_entries(before.0, messages, at);
        assert forall|id: Seq<char>| #[trigger] paired_id(messages, n, now.0, now.1, id) by {
            assert(paired_id(messages, n - 1, before.0, before.1, id));
            lemma_session_calls_grow(messages, n, messages.len() as int, id);
            assert(session_calls(messages, messages.len() as int, id) <= 1);
            lemma_call_count_add(before.1, step.1, id);
            match messages[at].role {
                Role::User => {
                    lemma_results(before.0, blocks, blocks.len() as int, id);
                    let r = results_of(before.0, blocks, blocks.len() as int);
                    let said = match user_content(parts_of(blocks, blocks.len() as int)) {
                        Some(content) => seq![EntryView::User(content)],
                        None => seq![],
                    };
                    lemma_call_count_add(r.1, said, id);
                    match user_content(parts_of(blocks, blocks.len() as int)) {
                        Some(content) => {
                            lemma_counts_one(EntryView::User(content), id);
                        },
                        None => {},
                    }
                    if now.0.seen.contains(id) && !now.0.used.contains(id) {
                        let j = choose|j: int|
                            n - 2 < j < messages.len() && #[trigger] answers(messages[j], id);
                        if j == at {
                            let k = choose|k: int|
                                0 <= k < blocks.len() && #[trigger] is_result_for(blocks[k], id);
                            assert(is_result_for(blocks[k], id));
                        }
                        assert(answers(messages[j], id));
                    }
                },
                Role::Assistant => {
                    lemma_turn(before.0, messages, at, blocks.len() as int, id);
                    lemma_turn_shape(before.0, messages, at, blocks.len() as int);
                    lemma_turn_entries(turn_of(before.0, messages, at, blocks.len() as int), id);
                    if before.0.seen.contains(id) && !before.0.used.contains(id) {
                        let j = choose|j: int|
                            n - 2 < j < messages.len() && #[trigger] answers(messages[j], id);
                        assert(answers(messages[j], id));
                    }
                },
            }
        }
    }
}

/// Every call is answered exactly once: where the calls of a session have ids of
/// their own, each call that is sent has exactly one answer among the entries,
/// and no other answer is sent.
pub proof fn law_every_call_is_answered_once(
    system: Seq<char>,
    messages: Seq<MessageView>,
    id: Seq<char>,
)
    requires
        calls_differ(messages),
    ensures
        call_count(chat_entries(system, messages), id) == session_calls(
            messages,
            messages.len() as int,
            id,
        ),
        answer_count(chat_entries(system, messages), id) == call_count(
            chat_entries(system, messages),
            id,
        ),
{
    let n = messages.len() as int;
    lemma_paired(messages, n);
    let end = conversation(messages, n);
    assert(paired_id(messages, n, end.0, end.1, id));
    assert(!answered_after(messages, n - 1, id));
    assert(session_calls(messages, n, id) <= 1);
    let prompt = if system.len() == 0 {
        seq![]
    } else {
        seq![EntryView::System(system)]
    };
    lemma_call_count_add(prompt, end.1, id);
    if system.len() > 0 {
        lemma_counts_one(EntryView::System(system), id);
    }
}

/// Whether the entries show a call for each id that the pairing has seen.
spec fn seen_is_called(st: PairingView, es: Seq<EntryView>) -> bool {
    &&& forall|id: Seq<char>|
        #![trigger st.seen.contains(id)]
        st.seen.contains(id) ==> called_before(es, es.len() as int, id)
    &&& forall|id: Seq<char>| #[trigger] st.used.contains(id) ==> st.seen.contains(id)
}

proof fn lemma_called_stays(a: Seq<EntryView>, b: Seq<EntryView>, p: int, id: Seq<char>)
    requires
        called_before(a, p, id),
    ensures
        called_before(a + b, p, id),
{
    let q = choose|q: int| 0 <= q < p && q < a.len() && #[trigger] entry_calls(a[q], id) > 0;
    assert((a + b)[q] == a[q]);
    assert(entry_calls((a + b)[q], id) > 0);
}

/// Entries that call nothing and answer only what `es` calls may follow `es`.
proof fn lemma_answers_may_follow(es: Seq<EntryView>, more: Seq<EntryView>)
    requires
        answers_follow_calls(es),
        forall|p: int, id: Seq<char>|
            0 <= p < more.len() && #[trigger] entry_answers(more[p], id) > 0 ==> called_before(
                es,
                es.len() as int,
                id,
            ),
    ensures
        answers_follow_calls(es + more),
{
    let all = es + more;
    assert forall|p: int, id: Seq<char>|
        0 <= p < all.len() && #[trigger] entry_answers(all[p], id) > 0 implies called_before(
        all,
        p,
        id,
    ) by {
        if p < es.len() {
            assert(all[p] == es[p]);
            assert(entry_answers(es[p], id) > 0);
            lemma_called_stays(es, more, p, id);
        } else {
            assert(all[p] == more[p - es.len()]);
            assert(entry_answers(more[p - es.len()], id) > 0);
            lemma_called_stays(es, more, es.len() as int, id);
            let q = choose|q: int|
                0 <= q < es.len() && q < all.len() && #[trigger] entry_calls(all[q], id) > 0;
            assert(entry_calls(all[q], id) > 0);
        }
    }
}

proof fn lemma_result_answers_seen(st: PairingView, blocks: Seq<BlockView>, n: int)
    requires
        forall|id: Seq<char>| #[trigger] st.used.contains(id) ==> st.seen.contains(id),
    ensures
        results_of(st, blocks, n).0.seen == st.seen,
        forall|id: Seq<char>| #[trigger]
            results_of(st, blocks, n).0.used.contains(id) ==> st.seen.contains(id),
        forall|p: int, id: Seq<char>|
            0 <= p < results_of(st, blocks, n).1.len() && #[trigger] entry_answers(
                results_of(st, blocks, n).1[p],
                id,
            ) > 0 ==> st.seen.contains(id),
    decreases n,
{
    if n > 0 {
        lemma_result_answers_seen(st, blocks, n - 1);
        let before = results_of(st, blocks, n - 1);
        let now = results_of(st, blocks, n);
        assert forall|p: int, id: Seq<char>|
            0 <= p < now.1.len() && #[trigger] entry_answers(now.1[p], id)
                > 0 implies st.seen.contains(id) by {
            if p < before.1.len() {
                assert(now.1[p] == before.1[p]);
                assert(entry_answers(before.1[p], id) > 0);
            }
        }
    }
}

proof fn lemma_turn_answers_calls(st: PairingView, messages: Seq<MessageView>, at: int, n: int)
    requires
        0 <= at < messages.len(),
        forall|id: Seq<char>| #[trigger] st.used.contains(id) ==> st.seen.contains(id),
    ensures
        ({
            let t = turn_of(st, messages, at, n);
            &&& forall|id: Seq<char>| #[trigger]
                t.pairing.seen.contains(id) ==> st.seen.contains(id) || calls_in(t.calls, id) > 0
            &&& forall|id: Seq<char>| #[trigger]
                t.pairing.used.contains(id) ==> t.pairing.seen.contains(id)
            &&& forall|p: int, id: Seq<char>|
                0 <= p < t.early.len() && #[trigger] entry_answers(t.early[p], id) > 0
                    ==> calls_in(t.calls, id) > 0
            &&& forall|p: int, id: Seq<char>|
                0 <= p < t.missing.len() && #[trigger] entry_answers(t.missing[p], id) > 0
                    ==> calls_in(t.calls, id) > 0
        }),
    decreases n,
{
    if n > 0 {
        lemma_turn_answers_calls(st, messages, at, n - 1);
        let t = turn_of(st, messages, at, n - 1);
        let now = turn_of(st, messages, at, n);
        match messages[at].content[n - 1] {
            BlockView::ToolUse { id: called, name, input } => {
                let arguments = crate::chat_messages::arguments_text(input);
                let call = CallView { id: called, name, arguments };
                assert forall|id: Seq<char>| calls_in(t.calls, id) > 0 || id
                    == called implies #[trigger] calls_in(now.calls, id) > 0 by {
                    lemma_call_pushed(t.calls, call, id);
                }
                assert forall|id: Seq<char>| #[trigger]
                    now.pairing.seen.contains(id) implies st.seen.contains(id) || calls_in(
                    now.calls,
                    id,
                ) > 0 by {
                    if id != called {
                        assert(t.pairing.seen.contains(id));
                    }
                    lemma_call_pushed(t.calls, call, id);
                }
                assert forall|id: Seq<char>| #[trigger]
                    now.pairing.used.contains(id) implies now.pairing.seen.contains(id) by {
                    if id != called {
                        assert(t.pairing.used.contains(id));
                    }
                }
                assert forall|p: int, id: Seq<char>|
                    0 <= p < now.early.len() && #[trigger] entry_answers(now.early[p], id)
                        > 0 implies calls_in(now.calls, id) > 0 by {
                    if p < t.early.len() {
                        assert(entry_answers(t.early[p], id) > 0);
                    }
                    lemma_call_pushed(t.calls, call, id);
                }
                assert forall|p: int, id: Seq<char>|
                    0 <= p < now.missing.len() && #[trigger] entry_answers(now.missing[p], id)
                        > 0 implies calls_in(now.calls, id) > 0 by {
                    if p < t.missing.len() {
                        assert(entry_answers(t.missing[p], id) > 0);
                    }
                    lemma_call_pushed(t.calls, call, id);
                }
            },
            _ => {},
        }
    }
}

proof fn lemma_order(messages: Seq<MessageView>, n: int)
    requires
        0 <= n <= messages.len(),
    ensures
        answers_follow_calls(conversation(messages, n).1),
        seen_is_called(conversation(messages, n).0, conversation(messages, n).1),
    decreases n,
{
    if n > 0 {
        lemma_order(messages, n - 1);
        let before = conversation(messages, n - 1);
        let now = conversation(messages, n);
        let at = n - 1;
        let blocks = messages[at].content;
        match messages[at].role {
            Role::User => {
                let r = results_of(before.0, blocks, blocks.len() as int);
                lemma_result_answers_seen(before.0, blocks, blocks.len() as int);
                let said = match user_content(parts_of(blocks, blocks.len() as int)) {
                    Some(content) => seq![EntryView::User(content)],
                    None => seq![],
                };
                let more = r.1 + said;
                assert forall|p: int, id: Seq<char>|
                    0 <= p < more.len() && #[trigger] entry_answers(more[p], id)
                        > 0 implies called_before(before.1, before.1.len() as int, id) by {
                    if p < r.1.len() {
                        assert(more[p] == r.1[p]);
                        assert(entry_answers(r.1[p], id) > 0);
                        assert(before.0.seen.contains(id));
                    }
                }
                lemma_answers_may_follow(before.1, more);
                assert forall|id: Seq<char>|
                    #![trigger now.0.seen.contains(id)]
                    now.0.seen.contains(id) implies called_before(
                    now.1,
                    now.1.len() as int,
                    id,
                ) by {
                    assert(before.0.seen.contains(id));
                    lemma_called_stays(before.1, more, before.1.len() as int, id);
                    let q = choose|q: int|
                        0 <= q < before.1.len() && q < now.1.len() && #[trigger] entry_calls(
                            now.1[q],
                            id,
                        ) > 0;
                    assert(entry_calls(now.1[q], id) > 0);
                }
            },
            Role::Assistant => {
                let t = turn_of(before.0, messages, at, blocks.len() as int);
                lemma_turn_answers_calls(before.0, messages, at, blocks.len() as int);
                lemma_turn_shape(before.0, messages, at, blocks.len() as int);
                let first = EntryView::Assistant { text: t.text, calls: t.calls };
                if t.text.len() == 0 && t.calls.len() == 0 {
                    assert(now.1 =~= before.1);
                    assert forall|id: Seq<char>|
                        #![trigger now.0.seen.contains(id)]
                        now.0.seen.contains(id) implies called_before(
                        now.1,
                        now.1.len() as int,
                        id,
                    ) by {
                        assert(calls_in(t.calls, id) == 0);
                        assert(before.0.seen.contains(id));
                    }
                } else {
                    let spoken = before.1 + seq![first];
                    let tail = t.early + t.missing;
                    assert(now.1 =~= spoken + tail);
                    assert forall|p: int, id: Seq<char>|
                        0 <= p < seq![first].len() && #[trigger] entry_answers(seq![first][p], id)
                            > 0 implies called_before(before.1, before.1.len() as int, id) by {}
                    lemma_answers_may_follow(before.1, seq![first]);
                    assert forall|id: Seq<char>|
                        calls_in(t.calls, id) > 0 implies #[trigger] called_before(
                        spoken,
                        spoken.len() as int,
                        id,
                    ) by {
                        assert(spoken[before.1.len() as int] == first);
                        assert(entry_calls(spoken[before.1.len() as int], id) > 0);
                    }
                    assert forall|p: int, id: Seq<char>|
                        0 <= p < tail.len() && #[trigger] entry_answers(tail[p], id)
                            > 0 implies called_before(spoken, spoken.len() as int, id) by {
                        if p < t.early.len() {
                            assert(tail[p] == t.early[p]);
                            assert(entry_answers(t.early[p], id) > 0);
                        } else {
                            assert(tail[p] == t.missing[p - t.early.len()]);
                            assert(entry_answers(t.missing[p - t.early.len()], id) > 0);
                        }
                    }
                    lemma_answers_may_follow(spoken, tail);
                    assert forall|id: Seq<char>|
                        #![trigger now.0.seen.contains(id)]
                        now.0.seen.contains(id) implies called_before(
                        now.1,
                        now.1.len() as int,
                        id,
                    ) by {
                        if calls_in(t.calls, id) > 0 {
                            assert(called_before(spoken, spoken.len() as int, id));
                        } else {
                            assert(before.0.seen.contains(id));
                            lemma_called_stays(
                                before.1,
                                seq![first],
                                before.1.len() as int,
                                id,
                            );
                            let q = choose|q: int|
                                0 <= q < before.1.len() && q < spoken.len()
                                    && #[trigger] entry_calls(spoken[q], id) > 0;
                            assert(entry_calls(spoken[q], id) > 0);
                        }
                        lemma_called_stays(spoken, tail, spoken.len() as int, id);
                        let q = choose|q: int|
                            0 <= q < spoken.len() && q < now.1.len() && #[trigger] entry_calls(
                                now.1[q],
                                id,
                            ) > 0;
                        assert(entry_calls(now.1[q], id) > 0);
                    }
                }
            },
        }
    }
}

/// An answer is never sent before its call, whatever order the session holds
/// them in.
pub proof fn law_answers_follow_calls(system: Seq<char>, messages: Seq<MessageView>)
    ensures
        answers_follow_calls(chat_entries(system, messages)),
{
    let n = messages.len() as int;
    lemma_order(messages, n);
    let es = conversation(messages, n).1;
    let all = chat_entries(system, messages);
    let shift = if system.len() == 0 {
        0int
    } else {
        1int
    };
    assert forall|p: int, id: Seq<char>|
        0 <= p < all.len() && #[trigger] entry_answers(all[p], id) > 0 implies called_before(
        all,
        p,
        id,
    ) by {
        assert(p >= shift);
        assert(all[p] == es[p - shift]);
        assert(entry_answers(es[p - shift], id) > 0);
        let q = choose|q: int|
            0 <= q < p - shift && q < es.len() && #[trigger] entry_calls(es[q], id) > 0;
        assert(all[q + shift] == es[q]);
        assert(entry_calls(all[q + shift], id) > 0);
    }
}

/// The text sent for the first result with the id `id` among the first `n` blocks.
pub open spec fn block_result(blocks: Seq<BlockView>, n: int, id: Seq<char>) -> Option<Seq<char>>
    decreases n,
{
    if n <= 0 {
        None
    } else {
        match (block_result(blocks, n - 1, id), blocks[n - 1]) {
            (Some(output), _) => Some(output),
            (None, BlockView::ToolResult { tool_use_id, content, is_error }) => if tool_use_id
                == id {
                Some(output_text(content, is_error))
            } else {
                None
            },
            _ => None,
        }
    }
}

/// The text sent for the first result with the id `id` in the user messages among
/// the first `n`.
pub open spec fn session_result(messages: Seq<MessageView>, n: int, id: Seq<char>) -> Option<
    Seq<char>,
>
    decreases n,
{
    if n <= 0 {
        None
    } else {
        match session_result(messages, n - 1, id) {
            Some(output) => Some(output),
            None => if messages[n - 1].role is User {
                block_result(messages[n - 1].content, messages[n - 1].content.len() as int, id)
            } else {
                None
            },
        }
    }
}

/// The answer that a call with the id `id` is owed: the first result that the
/// session holds for it, wherever it stands, else the text for a missing one.
pub open spec fn owed_answer(messages: Seq<MessageView>, id: Seq<char>) -> Seq<char> {
    match session_result(messages, messages.len() as int, id) {
        Some(output) => output,
        None => missing_text(),
    }
}

/// Whether every answer to `id` among the entries is `output`.
pub open spec fn answers_say(es: Seq<EntryView>, id: Seq<char>, output: Seq<char>) -> bool {
    forall|p: int| 0 <= p < es.len() ==> #[trigger] answer_says(es[p], id, output)
}

/// Whether an entry that answers `id` answers it with `output`.
pub open spec fn answer_says(e: EntryView, id: Seq<char>, output: Seq<char>) -> bool {
    match e {
        EntryView::Tool { id: answered, output: given } => answered == id ==> given == output,
        _ => true,
    }
}

proof fn lemma_answers_say_more(
    a: Seq<EntryView>,
    b: Seq<EntryView>,
    id: Seq<char>,
    output: Seq<char>,
)
    requires
        answers_say(a, id, output),
        answers_say(b, id, output),
    ensures
        answers_say(a + b, id, output),
{
    assert forall|p: int| 0 <= p < (a + b).len() implies #[trigger] answer_says(
        (a + b)[p],
        id,
        output,
    ) by {
        if p < a.len() {
            assert(answer_says(a[p], id, output));
        } else {
            assert(answer_says(b[p - a.len()], id, output));
        }
    }
}

proof fn lemma_result_stays(messages: Seq<MessageView>, n: int, m: int, id: Seq<char>)
    requires
        n <= m,
        session_result(messages, n, id) is Some,
    ensures
        session_result(messages, m, id) == session_result(messages, n, id),
    decreases m - n,
{
    if n < m {
        lemma_result_stays(messages, n, m - 1, id);
    }
}

proof fn lemma_block_result_exists(blocks: Seq<BlockView>, n: int, id: Seq<char>)
    requires
        n <= blocks.len(),
        block_result(blocks, n, id) is Some,
    ensures
        exists|k: int| 0 <= k < n && #[trigger] is_result_for(blocks[k], id),
    decreases n,
{
    if n > 0 {
        if block_result(blocks, n - 1, id) is Some {
            lemma_block_result_exists(blocks, n - 1, id);
            let k = choose|k: int| 0 <= k < n - 1 && #[trigger] is_result_for(blocks[k], id);
            assert(is_result_for(blocks[k], id));
        } else {
            assert(is_result_for(blocks[n - 1], id));
        }
    }
}

proof fn lemma_no_later_result(messages: Seq<MessageView>, at: int, m: int, id: Seq<char>)
    requires
        0 <= at < m <= messages.len(),
        messages[at].role is Assistant,
        session_result(messages, at, id) is None,
        !answered_after(messages, at, id),
    ensures
        session_result(messages, m, id) is None,
    decreases m,
{
    if m > at + 1 {
        lemma_no_later_result(messages, at, m - 1, id);
        let last = messages[m - 1];
        if last.role is User && block_result(last.content, last.content.len() as int, id) is Some {
            lemma_block_result_exists(last.content, last.content.len() as int, id);
            assert(answers(messages[m - 1], id));
        }
    }
}

/// What the pairing keeps of the results of `id`, the first of which gives `found`:
/// it is kept until the call comes, and a call that waits has none so far.
spec fn keeps(st: PairingView, id: Seq<char>, found: Option<Seq<char>>) -> bool {
    &&& st.pending.contains_key(id) <==> !st.seen.contains(id) && found is Some
    &&& st.pending.contains_key(id) ==> found == Some(st.pending[id])
    &&& st.seen.contains(id) && !st.used.contains(id) ==> found is None
    &&& st.used.contains(id) ==> st.seen.contains(id)
}

/// The first of what was found and what comes after it.
spec fn first_of(found: Option<Seq<char>>, later: Option<Seq<char>>) -> Option<Seq<char>> {
    match found {
        Some(output) => Some(output),
        None => later,
    }
}

proof fn lemma_results_keep(
    st: PairingView,
    blocks: Seq<BlockView>,
    n: int,
    id: Seq<char>,
    found: Option<Seq<char>>,
    output: Seq<char>,
)
    requires
        0 <= n <= blocks.len(),
        keeps(st, id, found),
        first_of(found, block_result(blocks, blocks.len() as int, id)) matches Some(first)
            ==> first == output,
    ensures
        keeps(results_of(st, blocks, n).0, id, first_of(found, block_result(blocks, n, id))),
        answers_say(results_of(st, blocks, n).1, id, output),
    decreases n,
{
    if n > 0 {
        lemma_results_keep(st, blocks, n - 1, id, found, output);
        let before = results_of(st, blocks, n - 1);
        match blocks[n - 1] {
            BlockView::ToolResult { tool_use_id, content, is_error } => {
                let given = output_text(content, is_error);
                let step = take_result(before.0, tool_use_id, given);
                lemma_block_result_stays(blocks, n, blocks.len() as int, id);
                assert(answers_say(step.1, id, output));
                lemma_answers_say_more(before.1, step.1, id, output);
            },
            _ => {},
        }
    }
}

proof fn lemma_block_result_stays(blocks: Seq<BlockView>, n: int, m: int, id: Seq<char>)
    requires
        n <= m,
    ensures
        block_result(blocks, n, id) is Some ==> block_result(blocks, m, id) == block_result(
            blocks,
            n,
            id,
        ),
    decreases m - n,
{
    if n < m {
        lemma_block_result_stays(blocks, n, m - 1, id);
    }
}

proof fn lemma_turn_keeps(
    st: PairingView,
    messages: Seq<MessageView>,
    at: int,
    n: int,
    id: Seq<char>,
)
    requires
        0 <= at < messages.len(),
        messages[at].role is Assistant,
        0 <= n <= messages[at].content.len(),
        keeps(st, id, session_result(messages, at, id)),
        (if st.seen.contains(id) {
            1nat
        } else {
            0nat
        }) + block_calls(messages[at].content, n, id) <= 1,
    ensures
        ({
            let t = turn_of(st, messages, at, n);
            &&& keeps(t.pairing, id, session_result(messages, at, id))
            &&& answers_say(t.early, id, owed_answer(messages, id))
            &&& answers_say(t.missing, id, owed_answer(messages, id))
        }),
    decreases n,
{
    let owed = owed_answer(messages, id);
    let len = messages.len() as int;
    if n > 0 {
        lemma_turn_keeps(st, messages, at, n - 1, id);
        let t = turn_of(st, messages, at, n - 1);
        match messages[at].content[n - 1] {
            BlockView::ToolUse { id: called, .. } => {
                if called == id {
                    lemma_turn(st, messages, at, n - 1, id);
                    assert(!t.pairing.seen.contains(id));
                    if t.pairing.pending.contains_key(id) {
                        lemma_result_stays(messages, at, len, id);
                    } else if !answered_after(messages, at, id) {
                        lemma_no_later_result(messages, at, len, id);
                    }
                }
                let early = EntryView::Tool { id: called, output: t.pairing.pending[called] };
                let missing = EntryView::Tool { id: called, output: missing_text() };
                if t.pairing.pending.contains_key(called) {
                    assert(answers_say(seq![early], id, owed));
                    lemma_answers_say_more(t.early, seq![early], id, owed);
                    assert(t.early.push(early) =~= t.early + seq![early]);
                } else if !answered_after(messages, at, called) {
                    assert(answers_say(seq![missing], id, owed));
                    lemma_answers_say_more(t.missing, seq![missing], id, owed);
                    assert(t.missing.push(missing) =~= t.missing + seq![missing]);
                }
            },
            _ => {},
        }
    }
}

proof fn lemma_answers_owed(messages: Seq<MessageView>, n: int, id: Seq<char>)
    requires
        0 <= n <= messages.len(),
        calls_differ(messages),
    ensures
        keeps(conversation(messages, n).0, id, session_result(messages, n, id)),
        answers_say(conversation(messages, n).1, id, owed_answer(messages, id)),
    decreases n,
{
    if n > 0 {
        let owed = owed_answer(messages, id);
        lemma_answers_owed(messages, n - 1, id);
        let before = conversation(messages, n - 1);
        let at = n - 1;
        let blocks = messages[at].content;
        let step = message_entries(before.0, messages, at);
        lemma_paired(messages, n - 1);
        assert(paired_id(messages, n - 1, before.0, before.1, id));
        lemma_session_calls_grow(messages, n, messages.len() as int, id);
        assert(session_calls(messages, messages.len() as int, id) <= 1);
        match messages[at].role {
            Role::User => {
                if session_result(messages, n, id) is Some {
                    lemma_result_stays(messages, n, messages.len() as int, id);
                }
                let found = session_result(messages, at, id);
                lemma_results_keep(before.0, blocks, blocks.len() as int, id, found, owed);
                let said = match user_content(parts_of(blocks, blocks.len() as int)) {
                    Some(content) => seq![EntryView::User(content)],
                    None => seq![],
                };
                assert(answers_say(said, id, owed));
                lemma_answers_say_more(
                    results_of(before.0, blocks, blocks.len() as int).1,
                    said,
                    id,
                    owed,
                );
            },
            Role::Assistant => {
                lemma_turn_keeps(before.0, messages, at, blocks.len() as int, id);
                let t = turn_of(before.0, messages, at, blocks.len() as int);
                let first = EntryView::Assistant { text: t.text, calls: t.calls };
                assert(answers_say(seq![first], id, owed));
                lemma_answers_say_more(seq![first], t.early, id, owed);
                lemma_answers_say_more(seq![first] + t.early, t.missing, id, owed);
            },
        }
        assert(answers_say(step.1, id, owed));
        lemma_answers_say_more(before.1, step.1, id, owed);
    }
}

/// A call is answered with the first result that the session holds for its id,
/// before the call or after it; an error carries its mark, and a call without any
/// result gets the text for a missing one. This is so where the calls of the
/// session have ids of their own.
pub proof fn law_first_result_answers_the_call(
    system: Seq<char>,
    messages: Seq<MessageView>,
    id: Seq<char>,
)
    requires
        calls_differ(messages),
    ensures
        answers_say(chat_entries(system, messages), id, owed_answer(messages, id)),
{
    let n = messages.len() as int;
    lemma_answers_owed(messages, n, id);
    let prompt = if system.len() == 0 {
        seq![]
    } else {
        seq![EntryView::System(system)]
    };
    assert(answers_say(prompt, id, owed_answer(messages, id)));
    lemma_answers_say_more(prompt, conversation(messages, n).1, id, owed_answer(messages, id));
}

} // verus!
