//! The conversation as Copilot's `/chat/completions` route wants it.
//!
//! Tool calls stand in assistant messages and their results in later (or, when
//! a session was edited, earlier) user messages. The route wants every call
//! answered by a `tool` message after it, so calls and results are paired here,
//! and a call without a result gets a stand-in.

use crate::json::{
    append, array, json_text, json_views, object2, object3, to_text, Json, JsonView,
};
use crate::keyed::{TextMap, TextSet};
use crate::message::{
    block_views, message_views, BlockView, ChatMessage, ContentBlock, MessageView, Role,
};
use crate::text::{chars_of, join, joined, owned};
use vstd::prelude::*;

verus! {

/// What stands for a tool's output that the session does not hold.
pub const TOOL_OUTPUT_MISSING_TEXT: &'static str =
    "Tool output missing (session interrupted before tool execution completed)";

/// The mark before an output that reports a failure.
pub const ERROR_MARK: &'static str = "[Error] ";

/// Whether a tool id may hold `c`.
pub open spec fn id_char(c: char) -> bool {
    ||| 'a' <= c <= 'z'
    ||| 'A' <= c <= 'Z'
    ||| '0' <= c <= '9'
    ||| c == '_'
    ||| c == '-'
}

/// A tool id with an underscore for each character that ids may not hold.
pub open spec fn sanitized(id: Seq<char>) -> Seq<char> {
    id.map_values(
        |c: char|
            if id_char(c) {
                c
            } else {
                '_'
            },
    )
}

/// Makes a tool id of `id` that every upstream accepts.
pub fn sanitize_tool_id(id: &str) -> (r: String)
    ensures
        r@ == sanitized(id@),
{
    let cs = chars_of(id);
    let mut r: String = String::new();
    let mut i: usize = 0;
    while i < cs.len()
        invariant
            cs@ == id@,
            i <= cs@.len(),
            r@ == sanitized(id@.take(i as int)),
        decreases cs@.len() - i,
    {
        let c = cs[i];
        let keep = ('a' <= c && c <= 'z') || ('A' <= c && c <= 'Z') || ('0' <= c && c <= '9') || c
            == '_' || c == '-';
        r.push(
            if keep {
                c
            } else {
                '_'
            },
        );
        i = i + 1;
        assert(sanitized(id@.take(i as int)) =~= sanitized(id@.take(i - 1)).push(
            if id_char(id@[i - 1]) {
                id@[i - 1]
            } else {
                '_'
            },
        ));
    }
    assert(id@.take(i as int) =~= id@);
    r
}

/// One part of a user entry.
pub enum PartView {
    Text(Seq<char>),
    /// An image, by its `data:` URL.
    Image(Seq<char>),
}

/// The content of a user entry.
pub enum UserView {
    Text(Seq<char>),
    Parts(Seq<PartView>),
}

/// A tool call in an assistant entry.
pub struct CallView {
    pub id: Seq<char>,
    pub name: Seq<char>,
    pub arguments: Seq<char>,
}

/// One entry of the conversation sent, with tool ids as the session holds them.
pub enum EntryView {
    System(Seq<char>),
    User(UserView),
    Assistant { text: Seq<char>, calls: Seq<CallView> },
    Tool { id: Seq<char>, output: Seq<char> },
}

/// Where the pairing of calls and results stands.
pub struct PairingView {
    /// Ids of the calls so far.
    pub seen: Set<Seq<char>>,
    /// Results that came before their call, by id.
    pub pending: Map<Seq<char>, Seq<char>>,
    /// Ids of the calls that have been answered.
    pub used: Set<Seq<char>>,
}

/// The pairing before the first message.
pub open spec fn no_pairing() -> PairingView {
    PairingView { seen: Set::empty(), pending: Map::empty(), used: Set::empty() }
}

/// The text sent for a tool's output.
pub open spec fn output_text(content: Seq<char>, is_error: Option<bool>) -> Seq<char> {
    if is_error == Some(true) {
        ERROR_MARK@ + content
    } else if content.len() == 0 {
        TOOL_OUTPUT_MISSING_TEXT@
    } else {
        content
    }
}

/// The text sent for the output of a call that has none.
pub open spec fn missing_text() -> Seq<char> {
    ERROR_MARK@ + TOOL_OUTPUT_MISSING_TEXT@
}

/// The URL that carries an image inline.
pub open spec fn image_url(media_type: Seq<char>, data: Seq<char>) -> Seq<char> {
    "data:"@ + media_type + ";base64,"@ + data
}

/// The parts that the first `n` blocks of a user message give. Empty texts give
/// none.
pub open spec fn parts_of(blocks: Seq<BlockView>, n: int) -> Seq<PartView>
    decreases n,
{
    if n <= 0 {
        seq![]
    } else {
        let before = parts_of(blocks, n - 1);
        match blocks[n - 1] {
            BlockView::Text { text } => if text.len() == 0 {
                before
            } else {
                before.push(PartView::Text(text))
            },
            BlockView::Image { media_type, data } => before.push(
                PartView::Image(image_url(media_type, data)),
            ),
            _ => before,
        }
    }
}

/// The text of a text part.
pub open spec fn part_text(p: PartView) -> Seq<char> {
    match p {
        PartView::Text(t) => t,
        PartView::Image(u) => u,
    }
}

/// The content of a user entry made of `parts`: one text where all parts are
/// texts, nothing where there is no part.
pub open spec fn user_content(parts: Seq<PartView>) -> Option<UserView> {
    if parts.len() == 0 {
        None
    } else if forall|i: int| 0 <= i < parts.len() ==> (#[trigger] parts[i]) is Text {
        Some(UserView::Text(joined(parts.map_values(|p: PartView| part_text(p)), "\n"@)))
    } else {
        Some(UserView::Parts(parts))
    }
}

/// What a result with the id `id` does: it answers a call that waits for it, is
/// kept for a call to come, or is dropped.
pub open spec fn take_result(st: PairingView, id: Seq<char>, output: Seq<char>) -> (
    PairingView,
    Seq<EntryView>,
) {
    if st.used.contains(id) {
        (st, seq![])
    } else if st.seen.contains(id) {
        (
            PairingView { used: st.used.insert(id), ..st },
            seq![EntryView::Tool { id, output }],
        )
    } else if st.pending.contains_key(id) {
        (st, seq![])
    } else {
        (PairingView { pending: st.pending.insert(id, output), ..st }, seq![])
    }
}

/// What the results among the first `n` blocks of a user message do.
pub open spec fn results_of(st: PairingView, blocks: Seq<BlockView>, n: int) -> (
    PairingView,
    Seq<EntryView>,
)
    decreases n,
{
    if n <= 0 {
        (st, seq![])
    } else {
        let before = results_of(st, blocks, n - 1);
        match blocks[n - 1] {
            BlockView::ToolResult { tool_use_id, content, is_error } => {
                let step = take_result(before.0, tool_use_id, output_text(content, is_error));
                (step.0, before.1 + step.1)
            },
            _ => before,
        }
    }
}

/// Whether a block is a result with the id `id`.
pub open spec fn is_result_for(block: BlockView, id: Seq<char>) -> bool {
    block matches BlockView::ToolResult { tool_use_id, .. } && tool_use_id == id
}

/// Whether a message holds a result with the id `id`.
pub open spec fn answers(message: MessageView, id: Seq<char>) -> bool {
    message.role is User && exists|k: int|
        0 <= k < message.content.len() && #[trigger] is_result_for(message.content[k], id)
}

/// Whether a message after the one at `at` holds a result with the id `id`.
pub open spec fn answered_after(messages: Seq<MessageView>, at: int, id: Seq<char>) -> bool {
    exists|j: int| at < j < messages.len() && #[trigger] answers(messages[j], id)
}

/// What the first blocks of an assistant message give.
pub struct TurnView {
    pub text: Seq<char>,
    pub calls: Seq<CallView>,
    /// Answers that came before their call.
    pub early: Seq<EntryView>,
    /// Stand-ins for answers that never come.
    pub missing: Seq<EntryView>,
    pub pairing: PairingView,
}

/// The arguments sent for a call: the input as JSON text if it is an object.
pub open spec fn arguments_text(input: JsonView) -> Seq<char> {
    if input is Object {
        json_text(input)
    } else {
        "{}"@
    }
}

/// What the first `n` blocks of the assistant message at `at` give.
pub open spec fn turn_of(
    st: PairingView,
    messages: Seq<MessageView>,
    at: int,
    n: int,
) -> TurnView
    decreases n,
{
    if n <= 0 {
        TurnView { text: seq![], calls: seq![], early: seq![], missing: seq![], pairing: st }
    } else {
        let t = turn_of(st, messages, at, n - 1);
        match messages[at].content[n - 1] {
            BlockView::Text { text } => TurnView { text: t.text + text, ..t },
            BlockView::ToolUse { id, name, input } => {
                let calls = t.calls.push(CallView { id, name, arguments: arguments_text(input) });
                let seen = t.pairing.seen.insert(id);
                let used = t.pairing.used.insert(id);
                if t.pairing.pending.contains_key(id) {
                    TurnView {
                        calls,
                        early: t.early.push(
                            EntryView::Tool { id, output: t.pairing.pending[id] },
                        ),
                        pairing: PairingView {
                            seen,
                            pending: t.pairing.pending.remove(id),
                            used,
                        },
                        ..t
                    }
                } else if answered_after(messages, at, id) {
                    TurnView { calls, pairing: PairingView { seen, ..t.pairing }, ..t }
                } else {
                    TurnView {
                        calls,
                        missing: t.missing.push(EntryView::Tool { id, output: missing_text() }),
                        pairing: PairingView { seen, used, ..t.pairing },
                        ..t
                    }
                }
            },
            _ => t,
        }
    }
}

/// The entries of an assistant message: the message, then the answers to its
/// calls that are known by now.
pub open spec fn turn_entries(t: TurnView) -> Seq<EntryView> {
    if t.text.len() == 0 && t.calls.len() == 0 {
        seq![]
    } else {
        seq![EntryView::Assistant { text: t.text, calls: t.calls }] + t.early + t.missing
    }
}

/// The entries of the message at `at`: a user message gives the answers that it
/// holds and then what the user said.
pub open spec fn message_entries(st: PairingView, messages: Seq<MessageView>, at: int) -> (
    PairingView,
    Seq<EntryView>,
) {
    let blocks = messages[at].content;
    match messages[at].role {
        Role::User => {
            let results = results_of(st, blocks, blocks.len() as int);
            let said = match user_content(parts_of(blocks, blocks.len() as int)) {
                Some(content) => seq![EntryView::User(content)],
                None => seq![],
            };
            (results.0, results.1 + said)
        },
        Role::Assistant => {
            let t = turn_of(st, messages, at, blocks.len() as int);
            (t.pairing, turn_entries(t))
        },
    }
}

/// The entries of the first `n` messages, and the pairing after them.
pub open spec fn conversation(messages: Seq<MessageView>, n: int) -> (PairingView, Seq<EntryView>)
    decreases n,
{
    if n <= 0 {
        (no_pairing(), seq![])
    } else {
        let before = conversation(messages, n - 1);
        let step = message_entries(before.0, messages, n - 1);
        (step.0, before.1 + step.1)
    }
}

/// The entries sent for a system prompt and a conversation.
pub open spec fn chat_entries(system: Seq<char>, messages: Seq<MessageView>) -> Seq<EntryView> {
    let prompt = if system.len() == 0 {
        seq![]
    } else {
        seq![EntryView::System(system)]
    };
    prompt + conversation(messages, messages.len() as int).1
}

/// The JSON of a part.
pub open spec fn part_json(p: PartView) -> JsonView {
    match p {
        PartView::Text(t) => JsonView::Object(
            seq![("type"@, JsonView::Str("text"@)), ("text"@, JsonView::Str(t))],
        ),
        PartView::Image(u) => JsonView::Object(
            seq![
                ("type"@, JsonView::Str("image_url"@)),
                ("image_url"@, JsonView::Object(seq![("url"@, JsonView::Str(u))])),
            ],
        ),
    }
}

/// The JSON of a call.
pub open spec fn call_json(c: CallView) -> JsonView {
    JsonView::Object(
        seq![
            ("id"@, JsonView::Str(sanitized(c.id))),
            ("type"@, JsonView::Str("function"@)),
            (
                "function"@,
                JsonView::Object(
                    seq![
                        ("name"@, JsonView::Str(c.name)),
                        ("arguments"@, JsonView::Str(c.arguments)),
                    ],
                ),
            ),
        ],
    )
}

/// The JSON of the content of a user entry.
pub open spec fn user_json(c: UserView) -> JsonView {
    match c {
        UserView::Text(t) => JsonView::Str(t),
        UserView::Parts(parts) => JsonView::Array(parts.map_values(|p: PartView| part_json(p))),
    }
}

/// The JSON of an entry. An assistant entry leaves out an empty text and an
/// empty list of calls.
pub open spec fn entry_json(e: EntryView) -> JsonView {
    match e {
        EntryView::System(t) => JsonView::Object(
            seq![("role"@, JsonView::Str("system"@)), ("content"@, JsonView::Str(t))],
        ),
        EntryView::User(c) => JsonView::Object(
            seq![("role"@, JsonView::Str("user"@)), ("content"@, user_json(c))],
        ),
        EntryView::Assistant { text, calls } => {
            let said = if text.len() == 0 {
                seq![]
            } else {
                seq![("content"@, JsonView::Str(text))]
            };
            let called = if calls.len() == 0 {
                seq![]
            } else {
                seq![
                    (
                        "tool_calls"@,
                        JsonView::Array(calls.map_values(|c: CallView| call_json(c))),
                    ),
                ]
            };
            JsonView::Object(
                seq![("role"@, JsonView::Str("assistant"@))] + said + called,
            )
        },
        EntryView::Tool { id, output } => JsonView::Object(
            seq![
                ("role"@, JsonView::Str("tool"@)),
                ("tool_call_id"@, JsonView::Str(sanitized(id))),
                ("content"@, JsonView::Str(output)),
            ],
        ),
    }
}

/// The JSON of a list of entries.
pub open spec fn entries_json(es: Seq<EntryView>) -> Seq<JsonView> {
    es.map_values(|e: EntryView| entry_json(e))
}


/// Where the pairing of calls and results stands.
struct Pairing {
    seen: TextSet,
    pending: TextMap<String>,
    used: TextSet,
}

impl View for Pairing {
    type V = PairingView;

    closed spec fn view(&self) -> PairingView {
        PairingView {
            seen: self.seen@,
            pending: self.pending@.map_values(|v: String| v@),
            used: self.used@,
        }
    }
}

proof fn lemma_entries_json_push(es: Seq<EntryView>, e: EntryView)
    ensures
        entries_json(es.push(e)) == entries_json(es).push(entry_json(e)),
{
    assert(entries_json(es.push(e)) =~= entries_json(es).push(entry_json(e)));
}

proof fn lemma_entries_json_add(a: Seq<EntryView>, b: Seq<EntryView>)
    ensures
        entries_json(a + b) == entries_json(a) + entries_json(b),
{
    assert(entries_json(a + b) =~= entries_json(a) + entries_json(b));
}

/// The text sent for a tool's output.
fn output_for(content: &String, is_error: Option<bool>) -> (r: String)
    ensures
        r@ == output_text(content@, is_error),
{
    match is_error {
        Some(true) => {
            let mut r = owned(ERROR_MARK);
            r.append(content.as_str());
            r
        },
        _ => if content.as_str().is_empty() {
            owned(TOOL_OUTPUT_MISSING_TEXT)
        } else {
            content.clone()
        },
    }
}

/// The entry that answers the call `id`.
fn tool_entry(id: &str, output: String) -> (r: Json)
    ensures
        r@ == entry_json(EntryView::Tool { id: id@, output: output@ }),
{
    object3(
        "role",
        Json::text("tool"),
        "tool_call_id",
        Json::Str(sanitize_tool_id(id)),
        "content",
        Json::Str(output),
    )
}

/// The content of a user entry, if the message says anything.
fn user_content_json(blocks: &Vec<ContentBlock>) -> (r: Option<Json>)
    ensures
        (match r {
            Some(j) => user_content(
                parts_of(block_views(blocks@), blocks@.len() as int),
            ) matches Some(c) && j@ == user_json(c),
            None => user_content(parts_of(block_views(blocks@), blocks@.len() as int)) is None,
        }),
{
    let ghost views = block_views(blocks@);
    let mut texts: Vec<String> = Vec::new();
    let mut parts: Vec<Json> = Vec::new();
    let mut only_text = true;
    let mut i: usize = 0;
    while i < blocks.len()
        invariant
            i <= blocks@.len(),
            views == block_views(blocks@),
            json_views(parts@) =~= parts_of(views, i as int).map_values(|p: PartView| part_json(p)),
            only_text <==> (forall|k: int|
                0 <= k < parts_of(views, i as int).len() ==> (#[trigger] parts_of(
                    views,
                    i as int,
                )[k]) is Text),
            only_text ==> texts@.map_values(|t: String| t@) =~= parts_of(
                views,
                i as int,
            ).map_values(|p: PartView| part_text(p)),
        decreases blocks@.len() - i,
    {
        let ghost old_parts = parts_of(views, i as int);
        let ghost old_texts = texts@.map_values(|t: String| t@);
        let ghost old_json = json_views(parts@);
        let ghost was_text = only_text;
        assert(views[i as int] == blocks@[i as int]@);
        match &blocks[i] {
            ContentBlock::Text { text } => {
                if !text.as_str().is_empty() {
                    append(
                        &mut parts,
                        object2("type", Json::text("text"), "text", Json::Str(text.clone())),
                    );
                    texts.push(text.clone());
                    proof {
                        let new_parts = parts_of(views, i + 1);
                        assert(new_parts == old_parts.push(PartView::Text(text@)));
                        assert(json_views(parts@) =~= new_parts.map_values(
                            |p: PartView| part_json(p),
                        ));
                        assert(texts@.map_values(|t: String| t@) =~= old_texts.push(text@));
                        if !was_text {
                            let k = choose|k: int|
                                0 <= k < old_parts.len() && !((#[trigger] old_parts[k]) is Text);
                            assert(new_parts[k] == old_parts[k]);
                        } else {
                            assert forall|k: int| 0 <= k < new_parts.len() implies (
                            #[trigger] new_parts[k]) is Text by {
                                if k < old_parts.len() {
                                    assert(old_parts[k] is Text);
                                }
                            }
                            assert(new_parts.map_values(|p: PartView| part_text(p))
                                =~= old_parts.map_values(|p: PartView| part_text(p)).push(text@));
                        }
                    }
                }
            },
            ContentBlock::Image { media_type, data } => {
                let mut url = owned("data:");
                url.append(media_type.as_str());
                url.append(";base64,");
                url.append(data.as_str());
                let ghost url_view = url@;
                append(
                    &mut parts,
                    object2(
                        "type",
                        Json::text("image_url"),
                        "image_url",
                        crate::json::object1("url", Json::Str(url)),
                    ),
                );
                only_text = false;
                proof {
                    let new_parts = parts_of(views, i + 1);
                    assert(new_parts == old_parts.push(PartView::Image(url_view)));
                    assert(json_views(parts@) =~= new_parts.map_values(
                        |p: PartView| part_json(p),
                    ));
                    assert(!(new_parts[old_parts.len() as int] is Text));
                }
            },
            _ => {},
        }
        i = i + 1;
    }
    let ghost all = parts_of(views, blocks@.len() as int);
    assert(parts@.len() == json_views(parts@).len());
    if parts.len() == 0 {
        None
    } else if only_text {
        Some(Json::Str(join(&texts, "\n")))
    } else {
        Some(array(parts))
    }
}

impl Pairing {
    fn new() -> (r: Pairing)
        ensures
            r@ == no_pairing(),
    {
        let r = Pairing { seen: TextSet::new(), pending: TextMap::new(), used: TextSet::new() };
        assert(r@.pending =~= no_pairing().pending);
        r
    }

    /// Takes in a result and adds the entry that it gives, if it gives one.
    fn take_result(&mut self, id: &String, output: String, out: &mut Vec<Json>)
        ensures
            final(self)@ == take_result(old(self)@, id@, output@).0,
            json_views(final(out)@) == json_views(old(out)@) + entries_json(
                take_result(old(self)@, id@, output@).1,
            ),
    {
        let ghost step = take_result(self@, id@, output@);
        if self.used.contains(id.as_str()) {
            assert(json_views(out@) =~= json_views(out@) + entries_json(step.1));
            return;
        }
        if self.seen.contains(id.as_str()) {
            append(out, tool_entry(id.as_str(), output));
            self.used.insert(id.clone());
            assert(entries_json(step.1) =~= seq![entry_json(step.1[0])]);
            assert(json_views(out@) =~= json_views(old(out)@) + entries_json(step.1));
        } else {
            assert(json_views(out@) =~= json_views(out@) + entries_json(step.1));
            let known = self.pending.get(id.as_str()).is_some();
            if !known {
                self.pending.insert(id.clone(), output);
                assert(self@.pending =~= old(self)@.pending.insert(id@, output@));
            }
        }
    }
}

/// Whether a message holds a result with the id `id`.
fn holds_result(message: &ChatMessage, id: &str) -> (r: bool)
    ensures
        r == answers(message@, id@),
{
    match message.role {
        Role::Assistant => false,
        Role::User => {
            let blocks = &message.content;
            let mut k: usize = 0;
            while k < blocks.len()
                invariant
                    k <= blocks@.len(),
                    *blocks == message.content,
                    message.role is User,
                    forall|j: int| 0 <= j < k ==> !is_result_for(#[trigger] message@.content[j], id@),
                decreases blocks@.len() - k,
            {
                assert(message@.content[k as int] == blocks@[k as int]@);
                match &blocks[k] {
                    ContentBlock::ToolResult { tool_use_id, .. } => {
                        if crate::text::same(tool_use_id.as_str(), id) {
                            assert(is_result_for(message@.content[k as int], id@));
                            return true;
                        }
                    },
                    _ => {},
                }
                k = k + 1;
            }
            false
        },
    }
}

/// Whether a message after the one at `at` holds a result with the id `id`.
fn later_result(messages: &Vec<ChatMessage>, at: usize, id: &str) -> (r: bool)
    requires
        at < messages.len(),
    ensures
        r == answered_after(message_views(messages@), at as int, id@),
{
    let ghost views = message_views(messages@);
    let mut j: usize = at + 1;
    while j < messages.len()
        invariant
            at < j <= messages@.len(),
            views == message_views(messages@),
            forall|k: int| at < k < j ==> !answers(#[trigger] views[k], id@),
        decreases messages@.len() - j,
    {
        assert(views[j as int] == messages@[j as int]@);
        if holds_result(&messages[j], id) {
            assert(answers(views[j as int], id@));
            return true;
        }
        j = j + 1;
    }
    false
}

/// The JSON of a call.
fn call_entry(id: &String, name: &String, input: &Json) -> (r: Json)
    ensures
        r@ == call_json(CallView { id: id@, name: name@, arguments: arguments_text(input@) }),
{
    let arguments = if input.is_object() {
        to_text(input)
    } else {
        owned("{}")
    };
    object3(
        "id",
        Json::Str(sanitize_tool_id(id.as_str())),
        "type",
        Json::text("function"),
        "function",
        object2("name", Json::Str(name.clone()), "arguments", Json::Str(arguments)),
    )
}

/// The JSON of an assistant entry.
fn assistant_entry(text: String, calls: Vec<Json>, Ghost(views): Ghost<Seq<CallView>>) -> (r: Json)
    requires
        json_views(calls@) == views.map_values(|c: CallView| call_json(c)),
    ensures
        r@ == entry_json(EntryView::Assistant { text: text@, calls: views }),
{
    let mut entries: Vec<(String, Json)> = Vec::new();
    entries.push(crate::json::entry("role", Json::text("assistant")));
    let ghost said: Seq<(Seq<char>, JsonView)> = if text@.len() == 0 {
        seq![]
    } else {
        seq![("content"@, JsonView::Str(text@))]
    };
    let ghost role = seq![("role"@, JsonView::Str("assistant"@))];
    assert(json_views(calls@).len() == calls@.len());
    assert(crate::json::entry_views(entries@) =~= role);
    if !text.as_str().is_empty() {
        entries.push(crate::json::entry("content", Json::Str(text)));
    }
    assert(crate::json::entry_views(entries@) =~= role + said);
    if calls.len() > 0 {
        let ghost listed = json_views(calls@);
        entries.push(crate::json::entry("tool_calls", array(calls)));
        assert(crate::json::entry_views(entries@) =~= role + said + seq![
            ("tool_calls"@, JsonView::Array(listed)),
        ]);
    } else {
        assert(crate::json::entry_views(entries@) =~= role + said + seq![]);
    }
    proof {
        crate::json::lemma_object_view(entries);
    }
    Json::Object(entries)
}

/// The entries of an assistant message, added to `out`.
fn add_turn(messages: &Vec<ChatMessage>, at: usize, pairing: &mut Pairing, out: &mut Vec<Json>)
    requires
        at < messages.len(),
        messages@[at as int].role is Assistant,
    ensures
        final(pairing)@ == message_entries(old(pairing)@, message_views(messages@), at as int).0,
        json_views(final(out)@) == json_views(old(out)@) + entries_json(
            message_entries(old(pairing)@, message_views(messages@), at as int).1,
        ),
{
    let ghost views = message_views(messages@);
    let ghost st = pairing@;
    let blocks = &messages[at].content;
    let mut text: String = String::new();
    let mut calls: Vec<Json> = Vec::new();
    let mut early: Vec<Json> = Vec::new();
    let mut missing: Vec<Json> = Vec::new();
    let mut i: usize = 0;
    assert(views[at as int] == messages@[at as int]@);
    while i < blocks.len()
        invariant
            at < messages.len(),
            i <= blocks@.len(),
            views == message_views(messages@),
            views[at as int].content == block_views(blocks@),
            text@ == turn_of(st, views, at as int, i as int).text,
            json_views(calls@) =~= turn_of(st, views, at as int, i as int).calls.map_values(
                |c: CallView| call_json(c),
            ),
            json_views(early@) == entries_json(turn_of(st, views, at as int, i as int).early),
            json_views(missing@) == entries_json(turn_of(st, views, at as int, i as int).missing),
            pairing@ == turn_of(st, views, at as int, i as int).pairing,
        decreases blocks@.len() - i,
    {
        let ghost t = turn_of(st, views, at as int, i as int);
        let ghost t2 = turn_of(st, views, at as int, i + 1);
        assert(views[at as int].content[i as int] == blocks@[i as int]@);
        match &blocks[i] {
            ContentBlock::Text { text: said } => {
                text.append(said.as_str());
            },
            ContentBlock::ToolUse { id, name, input } => {
                append(&mut calls, call_entry(id, name, input));
                let ghost call = CallView {
                    id: id@,
                    name: name@,
                    arguments: arguments_text(input@),
                };
                assert(t2.calls == t.calls.push(call));
                assert(t.calls.push(call).map_values(|c: CallView| call_json(c))
                    =~= t.calls.map_values(|c: CallView| call_json(c)).push(call_json(call)));
                pairing.seen.insert(id.clone());
                match pairing.pending.remove(id.as_str()) {
                    Some(output) => {
                        proof {
                            assert(t.pairing.pending.contains_key(id@));
                            assert(t.pairing.pending[id@] == output@);
                            lemma_entries_json_push(
                                t.early,
                                EntryView::Tool { id: id@, output: output@ },
                            );
                        }
                        append(&mut early, tool_entry(id.as_str(), output));
                        pairing.used.insert(id.clone());
                        assert(pairing@.pending =~= t.pairing.pending.remove(id@));
                    },
                    None => {
                        assert(!t.pairing.pending.contains_key(id@));
                        assert(pairing@.pending =~= t.pairing.pending);
                        if !later_result(messages, at, id.as_str()) {
                            let mut output = owned(ERROR_MARK);
                            output.append(TOOL_OUTPUT_MISSING_TEXT);
                            proof {
                                lemma_entries_json_push(
                                    t.missing,
                                    EntryView::Tool { id: id@, output: missing_text() },
                                );
                            }
                            append(&mut missing, tool_entry(id.as_str(), output));
                            pairing.used.insert(id.clone());
                        }
                    },
                }
            },
            _ => {},
        }
        i = i + 1;
    }
    let ghost t = turn_of(st, views, at as int, blocks@.len() as int);
    let ghost before = json_views(out@);
    assert(json_views(calls@).len() == calls@.len());
    if !text.as_str().is_empty() || calls.len() > 0 {
        let ghost first = EntryView::Assistant { text: t.text, calls: t.calls };
        append(out, assistant_entry(text, calls, Ghost(t.calls)));
        let ghost early_views = json_views(early@);
        let ghost missing_views = json_views(missing@);
        append_all(out, early);
        append_all(out, missing);
        proof {
            lemma_entries_json_add(seq![first], t.early);
            lemma_entries_json_add(seq![first] + t.early, t.missing);
            assert(entries_json(seq![first]) =~= seq![entry_json(first)]);
            assert(json_views(out@) =~= before + entries_json(turn_entries(t)));
        }
    } else {
        assert(before + entries_json(turn_entries(t)) =~= before);
    }
}

/// Adds the values in `more` to `out`.
fn append_all(out: &mut Vec<Json>, more: Vec<Json>)
    ensures
        json_views(final(out)@) == json_views(old(out)@) + json_views(more@),
{
    let ghost before = out@;
    let mut rest = more;
    out.append(&mut rest);
    assert(json_views(out@) =~= json_views(before) + json_views(more@));
}

/// The entries of a user message, added to `out`.
fn add_user(messages: &Vec<ChatMessage>, at: usize, pairing: &mut Pairing, out: &mut Vec<Json>)
    requires
        at < messages.len(),
        messages@[at as int].role is User,
    ensures
        final(pairing)@ == message_entries(old(pairing)@, message_views(messages@), at as int).0,
        json_views(final(out)@) == json_views(old(out)@) + entries_json(
            message_entries(old(pairing)@, message_views(messages@), at as int).1,
        ),
{
    let ghost views = message_views(messages@);
    let ghost st = pairing@;
    let ghost before = json_views(out@);
    let blocks = &messages[at].content;
    let ghost content = block_views(blocks@);
    let mut i: usize = 0;
    assert(views[at as int] == messages@[at as int]@);
    assert(before =~= before + entries_json(results_of(st, content, 0).1));
    while i < blocks.len()
        invariant
            i <= blocks@.len(),
            content == block_views(blocks@),
            pairing@ == results_of(st, content, i as int).0,
            json_views(out@) == before + entries_json(results_of(st, content, i as int).1),
        decreases blocks@.len() - i,
    {
        let ghost r = results_of(st, content, i as int);
        assert(content[i as int] == blocks@[i as int]@);
        match &blocks[i] {
            ContentBlock::ToolResult { tool_use_id, content: body, is_error } => {
                let output = output_for(body, *is_error);
                let ghost step = take_result(r.0, tool_use_id@, output@);
                pairing.take_result(tool_use_id, output, out);
                proof {
                    lemma_entries_json_add(r.1, step.1);
                    assert(json_views(out@) =~= before + entries_json(r.1 + step.1));
                }
            },
            _ => {},
        }
        i = i + 1;
    }
    let ghost r = results_of(st, content, blocks@.len() as int);
    match user_content_json(blocks) {
        Some(said) => {
            let ghost c = user_content(parts_of(content, blocks@.len() as int))->0;
            append(out, object2("role", Json::text("user"), "content", said));
            proof {
                lemma_entries_json_add(r.1, seq![EntryView::User(c)]);
                assert(entries_json(seq![EntryView::User(c)]) =~= seq![
                    entry_json(EntryView::User(c)),
                ]);
                assert(json_views(out@) =~= before + entries_json(
                    r.1 + seq![EntryView::User(c)],
                ));
            }
        },
        None => {
            assert(r.1 + seq![] =~= r.1);
        },
    }
}

/// The OpenAI-shaped `messages` of a request.
///
/// Calls and results are paired whatever order the session holds them in, and a
/// call whose result the session lacks is answered by an error text.
pub fn build_messages(system: &str, messages: &Vec<ChatMessage>) -> (r: Vec<Json>)
    ensures
        json_views(r@) == entries_json(chat_entries(system@, message_views(messages@))),
{
    let ghost views = message_views(messages@);
    let mut out: Vec<Json> = Vec::new();
    let ghost prompt: Seq<EntryView> = if system@.len() == 0 {
        seq![]
    } else {
        seq![EntryView::System(system@)]
    };
    if !system.is_empty() {
        append(&mut out, object2("role", Json::text("system"), "content", Json::text(system)));
    }
    assert(json_views(out@) =~= entries_json(prompt));
    let mut pairing = Pairing::new();
    let mut at: usize = 0;
    assert(prompt + conversation(views, 0).1 =~= prompt);
    while at < messages.len()
        invariant
            at <= messages@.len(),
            views == message_views(messages@),
            pairing@ == conversation(views, at as int).0,
            json_views(out@) == entries_json(prompt + conversation(views, at as int).1),
        decreases messages@.len() - at,
    {
        let ghost c = conversation(views, at as int);
        let ghost step = message_entries(c.0, views, at as int);
        let ghost before = json_views(out@);
        assert(views[at as int] == messages@[at as int]@);
        match messages[at].role {
            Role::User => {
                add_user(messages, at, &mut pairing, &mut out);
            },
            Role::Assistant => {
                add_turn(messages, at, &mut pairing, &mut out);
            },
        }
        proof {
            assert(prompt + (c.1 + step.1) =~= (prompt + c.1) + step.1);
            lemma_entries_json_add(prompt + c.1, step.1);
        }
        at = at + 1;
    }
    out
}

} // verus!
