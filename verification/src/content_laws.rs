//! What holds of every conversation that is sent on the chat route: what was said
//! in it is said there too.

use crate::chat_messages::{
    call_json, chat_entries, conversation, entries_json, entry_json, image_url, missing_text,
    output_text, part_json, parts_of, sanitized, turn_entries, turn_of, user_content, user_json,
    CallView, EntryView, PairingView, PartView, UserView,
};
use crate::json::{field, json_text, lemma_entry_from, JsonView};
use crate::message::{BlockView, MessageView};
use crate::text::joined;
use vstd::prelude::*;

verus! {

/// The texts among blocks that say something, in order.
pub open spec fn texts_said(blocks: Seq<BlockView>) -> Seq<Seq<char>>
    decreases blocks.len(),
{
    if blocks.len() == 0 {
        seq![]
    } else {
        let before = texts_said(blocks.drop_last());
        match blocks.last() {
            BlockView::Text { text } => if text.len() > 0 {
                before.push(text)
            } else {
                before
            },
            _ => before,
        }
    }
}

/// Whether blocks hold no image.
pub open spec fn no_image(blocks: Seq<BlockView>) -> bool {
    forall|i: int| 0 <= i < blocks.len() ==> !((#[trigger] blocks[i]) is Image)
}

/// Where the `k`th text begins, where the texts stand one after the other with a
/// line feed between two of them.
pub open spec fn begin_of(texts: Seq<Seq<char>>, k: int) -> int
    decreases k,
{
    if k <= 0 {
        0
    } else {
        begin_of(texts, k - 1) + texts[k - 1].len() + 1
    }
}

proof fn lemma_begins_rise(texts: Seq<Seq<char>>, k: int)
    ensures
        begin_of(texts, k) >= 0,
    decreases k,
{
    if k > 0 {
        lemma_begins_rise(texts, k - 1);
    }
}

proof fn lemma_begin_of_prefix(texts: Seq<Seq<char>>, k: int)
    requires
        0 <= k < texts.len(),
    ensures
        begin_of(texts.drop_last(), k) == begin_of(texts, k),
    decreases k,
{
    if k > 0 {
        lemma_begin_of_prefix(texts, k - 1);
    }
}

/// Texts that are joined by a line feed stand in the result one after the other,
/// each whole, with one line feed between two of them and nothing else.
pub proof fn law_joined_texts_are_whole(texts: Seq<Seq<char>>, k: int)
    requires
        0 <= k < texts.len(),
    ensures
        ({
            let all = joined(texts, "\n"@);
            let at = begin_of(texts, k);
            &&& all.len() == begin_of(texts, texts.len() as int) - 1
            &&& 0 <= at && at + texts[k].len() <= all.len()
            &&& all.subrange(at, at + texts[k].len()) == texts[k]
            &&& k + 1 < texts.len() ==> at + texts[k].len() < all.len() && all[at + texts[k].len()]
                == '\n'
        }),
    decreases texts.len(),
{
    reveal_strlit("\n");
    let all = joined(texts, "\n"@);
    let n = texts.len() as int;
    lemma_begins_rise(texts, k);
    if n == 1 {
        assert(all.subrange(0, texts[0].len() as int) =~= texts[0]);
    } else {
        let before = texts.drop_last();
        let front = joined(before, "\n"@);
        lemma_begin_of_prefix(texts, n - 1);
        law_joined_texts_are_whole(before, n - 2);
        assert(begin_of(before, n - 1) == begin_of(texts, n - 1)) by {
            lemma_begin_of_prefix(texts, n - 1);
        }
        assert(all == front + "\n"@ + texts.last());
        assert(front.len() == begin_of(texts, n - 1) - 1);
        if k < n - 1 {
            law_joined_texts_are_whole(before, k);
            lemma_begin_of_prefix(texts, k);
            let at = begin_of(texts, k);
            assert(front.subrange(at, at + texts[k].len()) == texts[k]);
            assert(all.subrange(at, at + texts[k].len()) =~= texts[k]) by {
                assert forall|i: int| 0 <= i < texts[k].len() implies all[at + i]
                    == texts[k][i] by {
                    assert(front.subrange(at, at + texts[k].len())[i] == texts[k][i]);
                }
            }
            if k + 1 == n - 1 {
                assert(at + texts[k].len() == front.len());
                assert(all[front.len() as int] == "\n"@[0]);
            } else {
                assert(all[at + texts[k].len()] == front[at + texts[k].len()]);
            }
        } else {
            let at = begin_of(texts, n - 1);
            assert(all.subrange(at, at + texts[k].len()) =~= texts[k]);
        }
    }
}

proof fn lemma_parts_are_texts(blocks: Seq<BlockView>, n: int)
    requires
        0 <= n <= blocks.len(),
        no_image(blocks),
    ensures
        parts_of(blocks, n) == texts_said(blocks.take(n)).map_values(
            |t: Seq<char>| PartView::Text(t),
        ),
    decreases n,
{
    let said = texts_said(blocks.take(n)).map_values(|t: Seq<char>| PartView::Text(t));
    if n > 0 {
        lemma_parts_are_texts(blocks, n - 1);
        assert(blocks.take(n).drop_last() =~= blocks.take(n - 1));
        assert(blocks.take(n).last() == blocks[n - 1]);
        assert(!(blocks[n - 1] is Image));
        assert(parts_of(blocks, n) =~= said);
    } else {
        assert(parts_of(blocks, n) =~= said);
    }
}

/// What the user said is kept: a user message without an image is sent as one text
/// that holds every text of the message that says something, whole and in order,
/// with one line feed between two of them and nothing else. A message that says
/// nothing gives no entry.
pub proof fn law_user_texts_are_kept(blocks: Seq<BlockView>, k: int)
    requires
        no_image(blocks),
        0 <= k < texts_said(blocks).len() || texts_said(blocks).len() == 0,
    ensures
        ({
            let said = texts_said(blocks);
            let content = user_content(parts_of(blocks, blocks.len() as int));
            &&& said.len() == 0 ==> content is None
            &&& said.len() > 0 ==> {
                let at = begin_of(said, k);
                &&& content matches Some(UserView::Text(all))
                &&& all.len() == begin_of(said, said.len() as int) - 1
                &&& all.subrange(at, at + said[k].len()) == said[k]
                &&& k + 1 < said.len() ==> all[at + said[k].len()] == '\n'
            }
        }),
{
    let said = texts_said(blocks);
    let parts = parts_of(blocks, blocks.len() as int);
    assert(blocks.take(blocks.len() as int) =~= blocks);
    lemma_parts_are_texts(blocks, blocks.len() as int);
    let texts = parts.map_values(|p: PartView| crate::chat_messages::part_text(p));
    assert(texts =~= said);
    if said.len() > 0 {
        assert forall|i: int| 0 <= i < parts.len() implies (#[trigger] parts[i]) is Text by {}
        law_joined_texts_are_whole(said, k);
    }
}

/// The parts of a user message are those of its blocks, one after the other: a text
/// that says something, and an image by its inline URL. Nothing else has a part.
pub proof fn law_parts_are_those_of_the_blocks(a: Seq<BlockView>, b: Seq<BlockView>)
    ensures
        parts_of(a + b, (a + b).len() as int) == parts_of(a, a.len() as int) + parts_of(
            b,
            b.len() as int,
        ),
        a.len() == 1 ==> parts_of(a, 1) == (match a[0] {
            BlockView::Text { text } => if text.len() > 0 {
                seq![PartView::Text(text)]
            } else {
                seq![]
            },
            BlockView::Image { media_type, data } => seq![
                PartView::Image("data:"@ + media_type + ";base64,"@ + data),
            ],
            _ => seq![],
        }),
{
    lemma_parts_of_front(a, b, a.len() as int);
    lemma_parts_of_back(a, b, b.len() as int);
    if a.len() == 1 {
        assert(parts_of(a, 0) =~= seq![]);
        assert(parts_of(a, 1) =~= (match a[0] {
            BlockView::Text { text } => if text.len() > 0 {
                seq![PartView::Text(text)]
            } else {
                seq![]
            },
            BlockView::Image { media_type, data } => seq![
                PartView::Image("data:"@ + media_type + ";base64,"@ + data),
            ],
            _ => seq![],
        }));
    }
}

proof fn lemma_parts_of_front(a: Seq<BlockView>, b: Seq<BlockView>, n: int)
    requires
        0 <= n <= a.len(),
    ensures
        parts_of(a + b, n) == parts_of(a, n),
    decreases n,
{
    if n > 0 {
        lemma_parts_of_front(a, b, n - 1);
        assert((a + b)[n - 1] == a[n - 1]);
    }
}

proof fn lemma_parts_of_back(a: Seq<BlockView>, b: Seq<BlockView>, n: int)
    requires
        0 <= n <= b.len(),
    ensures
        parts_of(a + b, a.len() + n) == parts_of(a, a.len() as int) + parts_of(b, n),
    decreases n,
{
    if n > 0 {
        lemma_parts_of_back(a, b, n - 1);
        assert((a + b)[a.len() + n - 1] == b[n - 1]);
        assert(parts_of(a + b, a.len() + n) =~= parts_of(a, a.len() as int) + parts_of(b, n));
    } else {
        lemma_parts_of_front(a, b, a.len() as int);
        assert(parts_of(a, a.len() as int) + parts_of(b, 0) =~= parts_of(a, a.len() as int));
    }
}

/// A message with an image keeps all of its parts, in order.
pub proof fn law_images_keep_their_place(parts: Seq<PartView>, i: int)
    requires
        0 <= i < parts.len(),
        parts[i] is Image,
    ensures
        user_content(parts) == Some(UserView::Parts(parts)),
{
}

/// What the assistant said in one message, without what stands between.
pub open spec fn words_said(blocks: Seq<BlockView>) -> Seq<char>
    decreases blocks.len(),
{
    if blocks.len() == 0 {
        seq![]
    } else {
        words_said(blocks.drop_last()) + (match blocks.last() {
            BlockView::Text { text } => text,
            _ => seq![],
        })
    }
}

/// The calls that the assistant made in one message, in order: the input is sent as
/// JSON text where it is an object.
pub open spec fn calls_made(blocks: Seq<BlockView>) -> Seq<CallView>
    decreases blocks.len(),
{
    if blocks.len() == 0 {
        seq![]
    } else {
        let before = calls_made(blocks.drop_last());
        match blocks.last() {
            BlockView::ToolUse { id, name, input } => before.push(
                CallView {
                    id,
                    name,
                    arguments: if input is Object {
                        json_text(input)
                    } else {
                        "{}"@
                    },
                },
            ),
            _ => before,
        }
    }
}

proof fn lemma_turn_says(st: PairingView, messages: Seq<MessageView>, at: int, n: int)
    requires
        0 <= at < messages.len(),
        0 <= n <= messages[at].content.len(),
    ensures
        turn_of(st, messages, at, n).text == words_said(messages[at].content.take(n)),
        turn_of(st, messages, at, n).calls == calls_made(messages[at].content.take(n)),
    decreases n,
{
    let blocks = messages[at].content;
    if n > 0 {
        lemma_turn_says(st, messages, at, n - 1);
        assert(blocks.take(n).drop_last() =~= blocks.take(n - 1));
        assert(blocks.take(n).last() == blocks[n - 1]);
        let before = turn_of(st, messages, at, n - 1);
        match blocks[n - 1] {
            BlockView::Text { text } => {},
            _ => {
                assert(before.text + Seq::<char>::empty() =~= before.text);
            },
        }
    } else {
        assert(words_said(blocks.take(0)) =~= seq![]);
        assert(calls_made(blocks.take(0)) =~= seq![]);
    }
}

/// How many entries stand before those of the messages.
pub open spec fn prompt_len(system: Seq<char>) -> int {
    if system.len() == 0 {
        0
    } else {
        1
    }
}

proof fn lemma_conversation_is_prefix(messages: Seq<MessageView>, n: int, m: int)
    requires
        0 <= n <= m,
    ensures
        conversation(messages, n).1.len() <= conversation(messages, m).1.len(),
        forall|p: int|
            0 <= p < conversation(messages, n).1.len() ==> conversation(messages, m).1[p]
                == #[trigger] conversation(messages, n).1[p],
    decreases m,
{
    if n < m {
        lemma_conversation_is_prefix(messages, n, m - 1);
        assert forall|p: int| 0 <= p < conversation(messages, n).1.len() implies conversation(
            messages,
            m,
        ).1[p] == #[trigger] conversation(messages, n).1[p] by {
            assert(conversation(messages, m - 1).1[p] == conversation(messages, n).1[p]);
        }
    }
}

/// The system prompt is the first entry, where there is one; without one there is
/// no such entry.
pub proof fn law_system_prompt_comes_first(system: Seq<char>, messages: Seq<MessageView>)
    ensures
        ({
            let es = chat_entries(system, messages);
            let rest = conversation(messages, messages.len() as int).1;
            &&& es.len() == prompt_len(system) + rest.len()
            &&& system.len() > 0 ==> es[0] == EntryView::System(system)
            &&& forall|p: int|
                0 <= p < rest.len() ==> es[p + prompt_len(system)] == #[trigger] rest[p]
        }),
{
}

/// What the user said in a message is sent, after the entries of the messages
/// before it and before those of the messages after it.
pub proof fn law_user_messages_are_sent(
    system: Seq<char>,
    messages: Seq<MessageView>,
    at: int,
)
    requires
        0 <= at < messages.len(),
        messages[at].role is User,
    ensures
        ({
            let blocks = messages[at].content;
            let es = chat_entries(system, messages);
            let from = prompt_len(system) + conversation(messages, at).1.len();
            let to = prompt_len(system) + conversation(messages, at + 1).1.len();
            user_content(parts_of(blocks, blocks.len() as int)) matches Some(content) ==> from < to
                <= es.len() && es[to - 1] == EntryView::User(content)
        }),
{
    law_system_prompt_comes_first(system, messages);
    lemma_conversation_is_prefix(messages, at + 1, messages.len() as int);
    let rest = conversation(messages, messages.len() as int).1;
    let sofar = conversation(messages, at + 1).1;
    if sofar.len() > 0 {
        assert(rest[sofar.len() - 1] == sofar[sofar.len() - 1]);
        assert(chat_entries(system, messages)[sofar.len() - 1 + prompt_len(system)]
            == rest[sofar.len() - 1]);
    }
}

/// What the assistant said and called in a message is sent in one entry, all of its
/// words and all of its calls in order, after the entries of the messages before
/// it and before those of the messages after it.
pub proof fn law_assistant_messages_are_sent(
    system: Seq<char>,
    messages: Seq<MessageView>,
    at: int,
)
    requires
        0 <= at < messages.len(),
        messages[at].role is Assistant,
        words_said(messages[at].content).len() > 0 || calls_made(messages[at].content).len() > 0,
    ensures
        ({
            let blocks = messages[at].content;
            let es = chat_entries(system, messages);
            let from = prompt_len(system) + conversation(messages, at).1.len();
            let to = prompt_len(system) + conversation(messages, at + 1).1.len();
            &&& from < to <= es.len()
            &&& es[from] == (EntryView::Assistant {
                text: words_said(blocks),
                calls: calls_made(blocks),
            })
        }),
{
    let blocks = messages[at].content;
    let n = blocks.len() as int;
    let before = conversation(messages, at);
    assert(blocks.take(n) =~= blocks);
    lemma_turn_says(before.0, messages, at, n);
    law_system_prompt_comes_first(system, messages);
    lemma_conversation_is_prefix(messages, at + 1, messages.len() as int);
    let rest = conversation(messages, messages.len() as int).1;
    let sofar = conversation(messages, at + 1).1;
    let i = before.1.len() as int;
    let t = turn_of(before.0, messages, at, n);
    assert(turn_entries(t)[0] == (EntryView::Assistant { text: t.text, calls: t.calls }));
    assert(sofar == before.1 + turn_entries(t));
    assert(sofar[i] == turn_entries(t)[0]);
    assert(rest[i] == sofar[i]);
    assert(chat_entries(system, messages)[i + prompt_len(system)] == rest[i]);
}

/// After what the assistant said and called stand the answers that came before their
/// calls, and then those that are missing, each in the order of the calls.
pub proof fn law_answers_at_hand_come_first(t: crate::chat_messages::TurnView, i: int)
    requires
        t.text.len() > 0 || t.calls.len() > 0,
    ensures
        turn_entries(t).len() == 1 + t.early.len() + t.missing.len(),
        turn_entries(t)[0] == (EntryView::Assistant { text: t.text, calls: t.calls }),
        0 <= i < t.early.len() ==> turn_entries(t)[1 + i] == t.early[i],
        0 <= i < t.missing.len() ==> turn_entries(t)[1 + t.early.len() + i] == t.missing[i],
{
}

/// A tool id keeps its length and every character that ids may hold; each other
/// character becomes an underscore.
pub proof fn law_ids_keep_what_they_may_hold(id: Seq<char>, i: int)
    requires
        0 <= i < id.len(),
    ensures
        ({
            let c = id[i];
            let allowed = ('a' <= c && c <= 'z') || ('A' <= c && c <= 'Z') || ('0' <= c && c <= '9')
                || c == '_' || c == '-';
            &&& sanitized(id).len() == id.len()
            &&& allowed ==> sanitized(id)[i] == c
            &&& !allowed ==> sanitized(id)[i] == '_'
        }),
{
}

/// A tool's output is sent as it is. One that reports a failure carries a mark in
/// front, and one without a word is named as missing.
pub proof fn law_outputs_are_sent_as_they_are(content: Seq<char>, is_error: Option<bool>)
    ensures
        is_error == Some(true) ==> output_text(content, is_error) == "[Error] "@ + content,
        is_error != Some(true) && content.len() > 0 ==> output_text(content, is_error) == content,
        is_error != Some(true) && content.len() == 0 ==> output_text(content, is_error)
            == "Tool output missing (session interrupted before tool execution completed)"@,
        missing_text() == "[Error] "@
            + "Tool output missing (session interrupted before tool execution completed)"@,
{
}

proof fn lemma_entry_names()
    ensures
        "role"@.len() == 4,
        "content"@.len() == 7,
        "tool_calls"@.len() == 10,
        "tool_call_id"@.len() == 12,
        "type"@.len() == 4 && "type"@[1] == 'y',
        "text"@.len() == 4 && "text"@[1] == 'e',
        "image_url"@.len() == 9,
        "url"@.len() == 3,
        "id"@.len() == 2,
        "function"@.len() == 8,
        "name"@.len() == 4,
        "arguments"@.len() == 9,
{
    reveal_strlit("role");
    reveal_strlit("content");
    reveal_strlit("tool_calls");
    reveal_strlit("tool_call_id");
    reveal_strlit("type");
    reveal_strlit("text");
    reveal_strlit("image_url");
    reveal_strlit("url");
    reveal_strlit("id");
    reveal_strlit("function");
    reveal_strlit("name");
    reveal_strlit("arguments");
}

proof fn lemma_found(entries: Seq<(Seq<char>, JsonView)>, i: int)
    requires
        0 <= i < entries.len(),
        forall|j: int| 0 <= j < i ==> (#[trigger] entries[j]).0 != entries[i].0,
    ensures
        field(JsonView::Object(entries), entries[i].0) == Some(entries[i].1),
{
    crate::json::lemma_entry_found(entries, entries[i].0, 0, i);
}

proof fn lemma_lacking(entries: Seq<(Seq<char>, JsonView)>, key: Seq<char>)
    requires
        forall|j: int| 0 <= j < entries.len() ==> (#[trigger] entries[j]).0 != key,
    ensures
        field(JsonView::Object(entries), key) is None,
{
    lemma_entry_from(entries, key, 0);
}

/// Each entry is sent under its role: the words of the system, the user and the
/// assistant as content, a tool's output under the id of the call that it answers.
pub proof fn law_entries_are_sent_under_their_role(e: EntryView)
    ensures
        ({
            let json = entry_json(e);
            match e {
                EntryView::System(t) => {
                    &&& field(json, "role"@) == Some(JsonView::Str("system"@))
                    &&& field(json, "content"@) == Some(JsonView::Str(t))
                },
                EntryView::User(content) => {
                    &&& field(json, "role"@) == Some(JsonView::Str("user"@))
                    &&& content matches UserView::Text(t) ==> field(json, "content"@) == Some(
                        JsonView::Str(t),
                    )
                    &&& content matches UserView::Parts(parts) ==> {
                        &&& field(json, "content"@) matches Some(JsonView::Array(items))
                        &&& items.len() == parts.len()
                        &&& forall|i: int|
                            0 <= i < parts.len() ==> says_part(#[trigger] items[i], parts[i])
                    }
                },
                EntryView::Assistant { text, calls } => {
                    &&& field(json, "role"@) == Some(JsonView::Str("assistant"@))
                    &&& text.len() > 0 ==> field(json, "content"@) == Some(JsonView::Str(text))
                    &&& text.len() == 0 ==> field(json, "content"@) is None
                    &&& calls.len() == 0 ==> field(json, "tool_calls"@) is None
                    &&& calls.len() > 0 ==> {
                        &&& field(json, "tool_calls"@) matches Some(JsonView::Array(items))
                        &&& items.len() == calls.len()
                        &&& forall|i: int|
                            0 <= i < calls.len() ==> says_call(#[trigger] items[i], calls[i])
                    }
                },
                EntryView::Tool { id, output } => {
                    &&& field(json, "role"@) == Some(JsonView::Str("tool"@))
                    &&& field(json, "tool_call_id"@) == Some(JsonView::Str(sanitized(id)))
                    &&& field(json, "content"@) == Some(JsonView::Str(output))
                },
            }
        }),
{
    lemma_entry_names();
    let entries = entry_json(e)->Object_0;
    assert(entries[0].0 == "role"@);
    lemma_found(entries, 0);
    match e {
        EntryView::System(t) => {
            lemma_found(entries, 1);
        },
        EntryView::User(content) => {
            lemma_found(entries, 1);
            match content {
                UserView::Parts(parts) => {
                    let items = user_json(content)->Array_0;
                    assert forall|i: int| 0 <= i < parts.len() implies says_part(
                        #[trigger] items[i],
                        parts[i],
                    ) by {
                        lemma_part_json(parts[i]);
                    }
                },
                _ => {},
            }
        },
        EntryView::Assistant { text, calls } => {
            if text.len() > 0 {
                assert(entries[1].0 == "content"@);
                lemma_found(entries, 1);
            } else {
                lemma_lacking(entries, "content"@);
            }
            if calls.len() > 0 {
                let at = entries.len() - 1;
                assert(entries[at].0 == "tool_calls"@);
                lemma_found(entries, at);
                let items = entries[at].1->Array_0;
                assert forall|i: int| 0 <= i < calls.len() implies says_call(
                    #[trigger] items[i],
                    calls[i],
                ) by {
                    lemma_call_json(calls[i]);
                }
            } else {
                lemma_lacking(entries, "tool_calls"@);
            }
        },
        EntryView::Tool { id, output } => {
            assert(entries[1].0 == "tool_call_id"@ && entries[2].0 == "content"@);
            lemma_found(entries, 1);
            lemma_found(entries, 2);
        },
    }
}

/// Whether a value says a part: a text by its words, an image by its URL.
pub open spec fn says_part(json: JsonView, part: PartView) -> bool {
    match part {
        PartView::Text(t) => {
            &&& field(json, "type"@) == Some(JsonView::Str("text"@))
            &&& field(json, "text"@) == Some(JsonView::Str(t))
        },
        PartView::Image(url) => {
            &&& field(json, "type"@) == Some(JsonView::Str("image_url"@))
            &&& field(json, "image_url"@) matches Some(image)
            &&& field(image, "url"@) == Some(JsonView::Str(url))
        },
    }
}

proof fn lemma_part_json(part: PartView)
    ensures
        says_part(part_json(part), part),
{
    lemma_entry_names();
    let entries = part_json(part)->Object_0;
    assert(entries[0].0 == "type"@);
    lemma_found(entries, 0);
    match part {
        PartView::Text(t) => {
            assert(entries[1].0 == "text"@);
            lemma_found(entries, 1);
        },
        PartView::Image(url) => {
            assert(entries[1].0 == "image_url"@);
            lemma_found(entries, 1);
            let inner = seq![("url"@, JsonView::Str(url))];
            assert(inner[0].0 == "url"@);
            lemma_found(inner, 0);
        },
    }
}

/// Whether a value says a call: a function with its name and its arguments, under
/// an id that every upstream accepts.
pub open spec fn says_call(json: JsonView, call: CallView) -> bool {
    &&& field(json, "id"@) == Some(JsonView::Str(sanitized(call.id)))
    &&& field(json, "type"@) == Some(JsonView::Str("function"@))
    &&& field(json, "function"@) matches Some(function)
    &&& field(function, "name"@) == Some(JsonView::Str(call.name))
    &&& field(function, "arguments"@) == Some(JsonView::Str(call.arguments))
}

proof fn lemma_call_json(call: CallView)
    ensures
        says_call(call_json(call), call),
{
    lemma_entry_names();
    let entries = call_json(call)->Object_0;
    assert(entries[0].0 == "id"@ && entries[1].0 == "type"@ && entries[2].0 == "function"@);
    lemma_found(entries, 0);
    lemma_found(entries, 1);
    lemma_found(entries, 2);
    let inner = entries[2].1->Object_0;
    assert(inner[0].0 == "name"@ && inner[1].0 == "arguments"@);
    lemma_found(inner, 0);
    lemma_found(inner, 1);
}

/// Every entry is sent, in order.
pub proof fn law_every_entry_is_sent(es: Seq<EntryView>, i: int)
    requires
        0 <= i < es.len(),
    ensures
        entries_json(es).len() == es.len(),
        entries_json(es)[i] == entry_json(es[i]),
{
}

} // verus!
