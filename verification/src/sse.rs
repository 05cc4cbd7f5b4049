//! Decoding of the Messages API's event stream.
//!
//! The format belongs to the Messages API, not to one host: Copilot serves it at
//! `/v1/messages` for Anthropic's models. The decoder performs no I/O and knows
//! nothing of authentication.

use crate::json::{field, parse, parsed_json, Json, JsonView};
use crate::keyed::TextMap;
use crate::message::{
    emit, event_views, text_option, ConnectionPhase, Event, EventView, StreamEvent,
};
use crate::stream::{data_of, sse_data_line};
use crate::text::{
    ascii_lowered, begins, chars_of, find_from, finishes, lemma_position_from, lines, lines_of,
    owned, position, same, strip_prefix, strip_suffix, text_of, to_ascii_lowercase,
};
use vstd::prelude::*;

verus! {

/// Accumulator for a tool call whose input comes in pieces.
#[derive(Debug)]
pub struct ToolUseAccumulator {
    pub input_json: String,
}

/// One event of the stream.
#[derive(Debug)]
pub struct SseEvent {
    pub event_type: String,
    pub data: String,
}

/// The model of [`SseEvent`].
pub struct SseView {
    pub event_type: Seq<char>,
    pub data: Seq<char>,
}

impl View for SseEvent {
    type V = SseView;

    open spec fn view(&self) -> SseView {
        SseView { event_type: self.event_type@, data: self.data@ }
    }
}

/// What the first `n` lines of an event say: the last name and the last data
/// win.
pub open spec fn event_of(ls: Seq<Seq<char>>, n: int) -> SseView
    decreases n,
{
    if n <= 0 {
        SseView { event_type: seq![], data: seq![] }
    } else {
        let before = event_of(ls, n - 1);
        let line = ls[n - 1];
        if begins(line, "event: "@) {
            SseView { event_type: line.skip("event: "@.len() as int), ..before }
        } else {
            match data_of(line) {
                Some(data) => SseView { data, ..before },
                None => before,
            }
        }
    }
}

/// The first event of `buffer`, and what is left of the buffer. A blank line
/// ends an event; one that names nothing and holds nothing is taken off the
/// buffer and counts as none.
pub open spec fn next_event(buffer: Seq<char>) -> (Option<SseView>, Seq<char>) {
    match position(buffer, seq!['\n', '\n']) {
        Some(i) => {
            let ls = lines_of(buffer.take(i));
            let event = event_of(ls, ls.len() as int);
            if event.event_type.len() == 0 && event.data.len() == 0 {
                (None, buffer.skip(i + 2))
            } else {
                (Some(event), buffer.skip(i + 2))
            }
        },
        None => (None, buffer),
    }
}

/// Takes the first event off the buffer.
pub fn parse_sse_event(buffer: &mut String) -> (r: Option<SseEvent>)
    ensures
        final(buffer)@ == next_event(old(buffer)@).1,
        (match r {
            Some(event) => next_event(old(buffer)@).0 == Some(event@),
            None => next_event(old(buffer)@).0 is None,
        }),
{
    let cs = chars_of(buffer.as_str());
    let mut blank: Vec<char> = Vec::new();
    blank.push('\n');
    blank.push('\n');
    assert(blank@ =~= seq!['\n', '\n']);
    proof {
        lemma_position_from(buffer@, seq!['\n', '\n'], 0);
    }
    let end = match find_from(&cs, &blank, 0) {
        Some(end) => end,
        None => {
            return None;
        },
    };
    let text = text_of(&cs, 0, end);
    assert(text@ =~= buffer@.take(end as int));
    let ghost whole = buffer@;
    *buffer = text_of(&cs, end + 2, cs.len());
    assert(buffer@ =~= whole.skip(end + 2));
    let ls = lines(text.as_str());
    let ghost views = lines_of(text@);
    let mut event_type: String = String::new();
    let mut data: String = String::new();
    assert(event_type@ =~= seq![]);
    assert(data@ =~= seq![]);
    let mut i: usize = 0;
    while i < ls.len()
        invariant
            i <= ls@.len(),
            ls@.map_values(|l: String| l@) == views,
            event_of(views, i as int) == (SseView { event_type: event_type@, data: data@ }),
        decreases ls@.len() - i,
    {
        assert(views[i as int] == ls@[i as int]@);
        let line = ls[i].as_str();
        match strip_prefix(line, "event: ") {
            Some(rest) => {
                event_type = owned(rest);
            },
            None => {
                match sse_data_line(line) {
                    Some(rest) => {
                        data = owned(rest);
                    },
                    None => {},
                }
            },
        }
        i = i + 1;
    }
    if event_type.as_str().is_empty() && data.as_str().is_empty() {
        return None;
    }
    Some(SseEvent { event_type, data })
}

/// The token counts that `message_start` reports.
#[derive(Clone, Copy, Debug, PartialEq, Eq, Structural)]
pub struct StartUsage {
    pub input_tokens: Option<u64>,
    pub cache_read_input_tokens: Option<u64>,
    pub cache_creation_input_tokens: Option<u64>,
}

/// What an event says, with texts of type `S`.
#[derive(Debug)]
pub enum Payload<S> {
    MessageStart { model: Option<S>, usage: Option<StartUsage> },
    Thinking { thinking: S },
    RedactedThinking,
    ToolUse { id: S, name: S },
    Text { text: S },
    InputJson { partial_json: S },
    ThinkingDelta { thinking: S },
    Signature { signature: S },
    BlockStop,
    /// `reported` is the count of output tokens of a usage report, where there is
    /// a report.
    MessageDelta { stop_reason: Option<S>, reported: Option<Option<u64>> },
    Ping,
    Error { data: S },
    /// Nothing that a consumer has to know.
    Nothing,
}

impl View for Payload<String> {
    type V = Payload<Seq<char>>;

    open spec fn view(&self) -> Payload<Seq<char>> {
        match *self {
            Payload::MessageStart { model, usage } => Payload::MessageStart {
                model: text_option(model),
                usage,
            },
            Payload::Thinking { thinking } => Payload::Thinking { thinking: thinking@ },
            Payload::RedactedThinking => Payload::RedactedThinking,
            Payload::ToolUse { id, name } => Payload::ToolUse { id: id@, name: name@ },
            Payload::Text { text } => Payload::Text { text: text@ },
            Payload::InputJson { partial_json } => Payload::InputJson {
                partial_json: partial_json@,
            },
            Payload::ThinkingDelta { thinking } => Payload::ThinkingDelta { thinking: thinking@ },
            Payload::Signature { signature } => Payload::Signature { signature: signature@ },
            Payload::BlockStop => Payload::BlockStop,
            Payload::MessageDelta { stop_reason, reported } => Payload::MessageDelta {
                stop_reason: text_option(stop_reason),
                reported,
            },
            Payload::Ping => Payload::Ping,
            Payload::Error { data } => Payload::Error { data: data@ },
            Payload::Nothing => Payload::Nothing,
        }
    }
}

/// A text that may be missing or null. `None`: something else stands there.
pub open spec fn optional_text(v: JsonView, key: Seq<char>) -> Option<Option<Seq<char>>> {
    match field(v, key) {
        None => Some(None),
        Some(JsonView::Null) => Some(None),
        Some(JsonView::Str(t)) => Some(Some(t)),
        Some(_) => None,
    }
}

/// A count that may be missing or null. `None`: something else stands there.
pub open spec fn optional_count(v: JsonView, key: Seq<char>) -> Option<Option<u64>> {
    match field(v, key) {
        None => Some(None),
        Some(JsonView::Null) => Some(None),
        Some(JsonView::UInt(n)) => Some(Some(n)),
        Some(_) => None,
    }
}

/// An object that may be missing or null. `None`: something else stands there.
pub open spec fn optional_object(v: JsonView, key: Seq<char>) -> Option<Option<JsonView>> {
    match field(v, key) {
        None => Some(None),
        Some(JsonView::Null) => Some(None),
        Some(JsonView::Object(e)) => Some(Some(JsonView::Object(e))),
        Some(_) => None,
    }
}

/// The usage report of `message_start`; the outer `None`: it is malformed.
pub open spec fn start_usage(message: JsonView) -> Option<Option<StartUsage>> {
    match optional_object(message, "usage"@) {
        None => None,
        Some(None) => Some(None),
        Some(Some(usage)) => match (
            optional_count(usage, "input_tokens"@),
            optional_count(usage, "cache_read_input_tokens"@),
            optional_count(usage, "cache_creation_input_tokens"@),
        ) {
            (
                Some(input_tokens),
                Some(cache_read_input_tokens),
                Some(cache_creation_input_tokens),
            ) => Some(
                Some(
                    StartUsage {
                        input_tokens,
                        cache_read_input_tokens,
                        cache_creation_input_tokens,
                    },
                ),
            ),
            _ => None,
        },
    }
}

/// What a `message_start` says.
pub open spec fn message_start(value: JsonView) -> Payload<Seq<char>> {
    match optional_object(value, "message"@) {
        Some(Some(message)) => match (optional_text(message, "model"@), start_usage(message)) {
            (Some(model), Some(usage)) => Payload::MessageStart { model, usage },
            _ => Payload::Nothing,
        },
        _ => Payload::Nothing,
    }
}

/// What a `content_block_start` says. Text blocks and kinds of block that are
/// not known say nothing.
pub open spec fn block_start(value: JsonView) -> Payload<Seq<char>> {
    match optional_object(value, "content_block"@) {
        Some(Some(block)) => {
            let kind = optional_text(block, "type"@);
            if kind == Some(Some("thinking"@)) {
                match optional_text(block, "thinking"@) {
                    Some(Some(thinking)) => Payload::Thinking { thinking },
                    Some(None) => Payload::Thinking { thinking: seq![] },
                    None => Payload::Nothing,
                }
            } else if kind == Some(Some("redacted_thinking"@)) {
                Payload::RedactedThinking
            } else if kind == Some(Some("tool_use"@)) {
                match (optional_text(block, "id"@), optional_text(block, "name"@)) {
                    (Some(Some(id)), Some(Some(name))) => Payload::ToolUse { id, name },
                    _ => Payload::Nothing,
                }
            } else {
                Payload::Nothing
            }
        },
        _ => Payload::Nothing,
    }
}

/// What a `content_block_delta` says.
pub open spec fn block_delta(value: JsonView) -> Payload<Seq<char>> {
    match optional_object(value, "delta"@) {
        Some(Some(delta)) => {
            let kind = optional_text(delta, "type"@);
            if kind == Some(Some("text_delta"@)) {
                match optional_text(delta, "text"@) {
                    Some(Some(text)) => Payload::Text { text },
                    _ => Payload::Nothing,
                }
            } else if kind == Some(Some("input_json_delta"@)) {
                match optional_text(delta, "partial_json"@) {
                    Some(Some(partial_json)) => Payload::InputJson { partial_json },
                    _ => Payload::Nothing,
                }
            } else if kind == Some(Some("thinking_delta"@)) {
                match optional_text(delta, "thinking"@) {
                    Some(Some(thinking)) => Payload::ThinkingDelta { thinking },
                    _ => Payload::Nothing,
                }
            } else if kind == Some(Some("signature_delta"@)) {
                match optional_text(delta, "signature"@) {
                    Some(Some(signature)) => Payload::Signature { signature },
                    _ => Payload::Nothing,
                }
            } else {
                Payload::Nothing
            }
        },
        _ => Payload::Nothing,
    }
}

/// The usage report of `message_delta`; the outer `None`: it is malformed.
pub open spec fn delta_usage(value: JsonView) -> Option<Option<Option<u64>>> {
    match optional_object(value, "usage"@) {
        None => None,
        Some(None) => Some(None),
        Some(Some(usage)) => match optional_count(usage, "output_tokens"@) {
            Some(n) => Some(Some(n)),
            None => None,
        },
    }
}

/// What a `message_delta` says.
pub open spec fn message_delta(value: JsonView) -> Payload<Seq<char>> {
    match optional_object(value, "delta"@) {
        Some(Some(delta)) => match (optional_text(delta, "stop_reason"@), delta_usage(value)) {
            (Some(stop_reason), Some(reported)) => Payload::MessageDelta { stop_reason, reported },
            _ => Payload::Nothing,
        },
        _ => Payload::Nothing,
    }
}

/// What an event of the stream says.
pub open spec fn payload_of(event: SseView) -> Payload<Seq<char>> {
    let kind = event.event_type;
    if kind == "content_block_stop"@ {
        Payload::BlockStop
    } else if kind == "ping"@ {
        Payload::Ping
    } else if kind == "error"@ {
        Payload::Error { data: event.data }
    } else {
        match parsed_json(event.data) {
            None => Payload::Nothing,
            Some(value) => value_payload(kind, value),
        }
    }
}

/// What the JSON data of an event says.
pub open spec fn value_payload(kind: Seq<char>, value: JsonView) -> Payload<Seq<char>> {
    if kind == "message_start"@ {
        message_start(value)
    } else if kind == "content_block_start"@ {
        block_start(value)
    } else if kind == "content_block_delta"@ {
        block_delta(value)
    } else if kind == "message_delta"@ {
        message_delta(value)
    } else {
        Payload::Nothing
    }
}

fn read_text<'a>(v: &'a Json, key: &str) -> (r: Option<Option<&'a str>>)
    ensures
        (match r {
            None => optional_text(v@, key@) is None,
            Some(None) => optional_text(v@, key@) == Some(None::<Seq<char>>),
            Some(Some(t)) => optional_text(v@, key@) == Some(Some(t@)),
        }),
{
    match v.get(key) {
        None => Some(None),
        Some(Json::Null) => Some(None),
        Some(Json::Str(t)) => Some(Some(t.as_str())),
        Some(_) => None,
    }
}

fn read_count(v: &Json, key: &str) -> (r: Option<Option<u64>>)
    ensures
        r == optional_count(v@, key@),
{
    match v.get(key) {
        None => Some(None),
        Some(Json::Null) => Some(None),
        Some(Json::UInt(n)) => Some(Some(*n)),
        Some(_) => None,
    }
}

fn read_object<'a>(v: &'a Json, key: &str) -> (r: Option<Option<&'a Json>>)
    ensures
        (match r {
            None => optional_object(v@, key@) is None,
            Some(None) => optional_object(v@, key@) == Some(None::<JsonView>),
            Some(Some(o)) => optional_object(v@, key@) == Some(Some(o@)),
        }),
{
    match v.get(key) {
        None => Some(None),
        Some(o) => match o {
            Json::Null => Some(None),
            Json::Object(_) => Some(Some(o)),
            _ => None,
        },
    }
}

fn owned_option(t: Option<&str>) -> (r: Option<String>)
    ensures
        text_option(r) == (match t {
            Some(t) => Some(t@),
            None => None,
        }),
{
    match t {
        Some(t) => Some(owned(t)),
        None => None,
    }
}

fn read_start_usage(message: &Json) -> (r: Option<Option<StartUsage>>)
    ensures
        r == start_usage(message@),
{
    match read_object(message, "usage") {
        None => None,
        Some(None) => Some(None),
        Some(Some(usage)) => {
            let input = read_count(usage, "input_tokens");
            let read = read_count(usage, "cache_read_input_tokens");
            let creation = read_count(usage, "cache_creation_input_tokens");
            match (input, read, creation) {
                (
                    Some(input_tokens),
                    Some(cache_read_input_tokens),
                    Some(cache_creation_input_tokens),
                ) => Some(
                    Some(
                        StartUsage {
                            input_tokens,
                            cache_read_input_tokens,
                            cache_creation_input_tokens,
                        },
                    ),
                ),
                _ => None,
            }
        },
    }
}

fn read_message_start(value: &Json) -> (r: Payload<String>)
    ensures
        r@ == message_start(value@),
{
    match read_object(value, "message") {
        Some(Some(message)) => {
            let model = read_text(message, "model");
            let usage = read_start_usage(message);
            match (model, usage) {
                (Some(model), Some(usage)) => Payload::MessageStart {
                    model: owned_option(model),
                    usage,
                },
                _ => Payload::Nothing,
            }
        },
        _ => Payload::Nothing,
    }
}

/// Whether a `type` field reads `kind`.
fn is_kind(found: Option<Option<&str>>, kind: &str) -> (r: bool)
    ensures
        r == (found matches Some(Some(t)) && t@ == kind@),
{
    match found {
        Some(Some(t)) => same(t, kind),
        _ => false,
    }
}

fn read_block_start(value: &Json) -> (r: Payload<String>)
    ensures
        r@ == block_start(value@),
{
    let block = match read_object(value, "content_block") {
        Some(Some(block)) => block,
        _ => {
            return Payload::Nothing;
        },
    };
    let kind = read_text(block, "type");
    if is_kind(kind, "thinking") {
        match read_text(block, "thinking") {
            Some(Some(thinking)) => Payload::Thinking { thinking: owned(thinking) },
            Some(None) => {
                let thinking: String = String::new();
                assert(thinking@ =~= seq![]);
                Payload::Thinking { thinking }
            },
            None => Payload::Nothing,
        }
    } else if is_kind(kind, "redacted_thinking") {
        Payload::RedactedThinking
    } else if is_kind(kind, "tool_use") {
        let id = read_text(block, "id");
        let name = read_text(block, "name");
        match (id, name) {
            (Some(Some(id)), Some(Some(name))) => Payload::ToolUse {
                id: owned(id),
                name: owned(name),
            },
            _ => Payload::Nothing,
        }
    } else {
        Payload::Nothing
    }
}

fn read_block_delta(value: &Json) -> (r: Payload<String>)
    ensures
        r@ == block_delta(value@),
{
    let delta = match read_object(value, "delta") {
        Some(Some(delta)) => delta,
        _ => {
            return Payload::Nothing;
        },
    };
    let kind = read_text(delta, "type");
    if is_kind(kind, "text_delta") {
        match read_text(delta, "text") {
            Some(Some(text)) => Payload::Text { text: owned(text) },
            _ => Payload::Nothing,
        }
    } else if is_kind(kind, "input_json_delta") {
        match read_text(delta, "partial_json") {
            Some(Some(part)) => Payload::InputJson { partial_json: owned(part) },
            _ => Payload::Nothing,
        }
    } else if is_kind(kind, "thinking_delta") {
        match read_text(delta, "thinking") {
            Some(Some(thinking)) => Payload::ThinkingDelta { thinking: owned(thinking) },
            _ => Payload::Nothing,
        }
    } else if is_kind(kind, "signature_delta") {
        match read_text(delta, "signature") {
            Some(Some(signature)) => Payload::Signature { signature: owned(signature) },
            _ => Payload::Nothing,
        }
    } else {
        Payload::Nothing
    }
}

fn read_message_delta(value: &Json) -> (r: Payload<String>)
    ensures
        r@ == message_delta(value@),
{
    match read_object(value, "delta") {
        Some(Some(delta)) => {
            let stop_reason = read_text(delta, "stop_reason");
            let usage: Option<Option<Option<u64>>> = match read_object(value, "usage") {
                None => None,
                Some(None) => Some(None),
                Some(Some(usage)) => match read_count(usage, "output_tokens") {
                    Some(n) => Some(Some(n)),
                    None => None,
                },
            };
            assert(usage == delta_usage(value@));
            match (stop_reason, usage) {
                (Some(stop_reason), Some(reported)) => Payload::MessageDelta {
                    stop_reason: owned_option(stop_reason),
                    reported,
                },
                _ => Payload::Nothing,
            }
        },
        _ => Payload::Nothing,
    }
}

/// Reads what the JSON data of an event says.
pub fn read_value_payload(kind: &str, value: &Json) -> (r: Payload<String>)
    ensures
        r@ == value_payload(kind@, value@),
{
    if same(kind, "message_start") {
        read_message_start(value)
    } else if same(kind, "content_block_start") {
        read_block_start(value)
    } else if same(kind, "content_block_delta") {
        read_block_delta(value)
    } else if same(kind, "message_delta") {
        read_message_delta(value)
    } else {
        Payload::Nothing
    }
}

/// Reads what an event of the stream says.
pub fn read_payload(event: &SseEvent) -> (r: Payload<String>)
    ensures
        r@ == payload_of(event@),
{
    let kind = event.event_type.as_str();
    if same(kind, "content_block_stop") {
        return Payload::BlockStop;
    }
    if same(kind, "ping") {
        return Payload::Ping;
    }
    if same(kind, "error") {
        return Payload::Error { data: event.data.clone() };
    }
    match parse(event.data.as_str()) {
        None => Payload::Nothing,
        Some(value) => read_value_payload(kind, &value),
    }
}

/// What a decoder remembers across the events of one stream.
#[derive(Debug)]
pub struct SseStreamState {
    pub current_tool_use: Option<ToolUseAccumulator>,
    pub current_thinking_block: bool,
    pub input_tokens: Option<u64>,
    pub output_tokens: Option<u64>,
    pub cache_read_input_tokens: Option<u64>,
    pub cache_creation_input_tokens: Option<u64>,
    /// Lowercased base id of the model that was asked for; empty when unknown.
    pub requested_model_base: String,
    /// Set once a substituted model has been reported.
    pub warned_model_substitution: bool,
}

/// The model of [`SseStreamState`]; `tool` is the input gathered so far of the
/// tool call that is open.
pub struct SseStateView {
    pub tool: Option<Seq<char>>,
    pub thinking: bool,
    pub input_tokens: Option<u64>,
    pub output_tokens: Option<u64>,
    pub cache_read_input_tokens: Option<u64>,
    pub cache_creation_input_tokens: Option<u64>,
    pub requested: Seq<char>,
    pub warned: bool,
}

impl View for SseStreamState {
    type V = SseStateView;

    open spec fn view(&self) -> SseStateView {
        SseStateView {
            tool: match self.current_tool_use {
                Some(tool) => Some(tool.input_json@),
                None => None,
            },
            thinking: self.current_thinking_block,
            input_tokens: self.input_tokens,
            output_tokens: self.output_tokens,
            cache_read_input_tokens: self.cache_read_input_tokens,
            cache_creation_input_tokens: self.cache_creation_input_tokens,
            requested: self.requested_model_base@,
            warned: self.warned_model_substitution,
        }
    }
}

/// The state at the start of a stream that answers for `requested`.
pub open spec fn fresh_state(requested: Seq<char>) -> SseStateView {
    SseStateView {
        tool: None,
        thinking: false,
        input_tokens: None,
        output_tokens: None,
        cache_read_input_tokens: None,
        cache_creation_input_tokens: None,
        requested,
        warned: false,
    }
}

impl Default for SseStreamState {
    fn default() -> (r: SseStreamState)
        ensures
            r@ == fresh_state(seq![]),
    {
        let r = SseStreamState {
            current_tool_use: None,
            current_thinking_block: false,
            input_tokens: None,
            output_tokens: None,
            cache_read_input_tokens: None,
            cache_creation_input_tokens: None,
            requested_model_base: String::new(),
            warned_model_substitution: false,
        };
        assert(r@.requested =~= seq![]);
        r
    }
}

/// A model id without the suffix that asks for the long context window.
pub open spec fn base_model(model: Seq<char>) -> Seq<char> {
    if finishes(model, "[1m]"@) {
        model.take(model.len() - "[1m]"@.len())
    } else {
        model
    }
}

/// A model id without the suffix that asks for the long context window.
pub fn strip_1m_suffix<'a>(model: &'a str) -> (r: &'a str)
    ensures
        r@ == base_model(model@),
{
    match strip_suffix(model, "[1m]") {
        Some(base) => base,
        None => model,
    }
}

/// The notice that another model answers than the one that was asked for.
pub open spec fn substitution(served: Seq<char>, requested: Seq<char>) -> Seq<char> {
    "⚠ Anthropic served '"@ + served + "' instead of requested '"@ + requested
        + "' (requested model unavailable)"@
}

/// Whether `served` is to be reported as a substitute.
pub open spec fn is_substituted(st: SseStateView, served: Seq<char>) -> bool {
    st.requested.len() > 0 && !st.warned && ascii_lowered(base_model(served)) != st.requested
}

/// The name under which a tool is announced.
pub open spec fn tool_name(name: Seq<char>, is_oauth: bool, oauth: Map<Seq<char>, String>) -> Seq<
    char,
> {
    if is_oauth && oauth.contains_key(name) {
        oauth[name]@
    } else {
        name
    }
}

/// What an event's payload does: the state after it, and what the consumer is
/// sent.
pub open spec fn payload_step(
    st: SseStateView,
    payload: Payload<Seq<char>>,
    is_oauth: bool,
    oauth: Map<Seq<char>, String>,
) -> (SseStateView, Seq<EventView>) {
    match payload {
        Payload::MessageStart { model, usage } => {
            let warns = model matches Some(served) && is_substituted(st, served);
            let noticed = SseStateView { warned: st.warned || warns, ..st };
            let counted = match usage {
                Some(u) => SseStateView {
                    input_tokens: u.input_tokens,
                    cache_read_input_tokens: u.cache_read_input_tokens,
                    cache_creation_input_tokens: u.cache_creation_input_tokens,
                    ..noticed
                },
                None => noticed,
            };
            (
                counted,
                if warns {
                    seq![
                        Event::StatusDetail {
                            detail: substitution(ascii_lowered(base_model(model->0)), st.requested),
                        },
                    ]
                } else {
                    seq![]
                },
            )
        },
        Payload::Thinking { thinking } => (
            SseStateView { thinking: true, ..st },
            if thinking.len() == 0 {
                seq![Event::ThinkingStart]
            } else {
                seq![Event::ThinkingStart, Event::ThinkingDelta(thinking)]
            },
        ),
        Payload::RedactedThinking => (
            SseStateView { thinking: true, ..st },
            seq![Event::ThinkingStart],
        ),
        Payload::ToolUse { id, name } => (
            SseStateView { tool: Some(seq![]), ..st },
            seq![Event::ToolUseStart { id, name: tool_name(name, is_oauth, oauth) }],
        ),
        Payload::Text { text } => (st, seq![Event::TextDelta(text)]),
        Payload::InputJson { partial_json } => (
            SseStateView {
                tool: match st.tool {
                    Some(sofar) => Some(sofar + partial_json),
                    None => None,
                },
                ..st
            },
            seq![Event::ToolInputDelta(partial_json)],
        ),
        Payload::ThinkingDelta { thinking } => (st, seq![Event::ThinkingDelta(thinking)]),
        Payload::Signature { signature } => (st, seq![Event::ThinkingSignatureDelta(signature)]),
        Payload::BlockStop => if st.tool is Some {
            (SseStateView { tool: None, ..st }, seq![Event::ToolUseEnd])
        } else if st.thinking {
            (SseStateView { thinking: false, ..st }, seq![Event::ThinkingEnd])
        } else {
            (st, seq![])
        },
        Payload::MessageDelta { stop_reason, reported } => (
            SseStateView {
                output_tokens: match reported {
                    Some(n) => n,
                    None => st.output_tokens,
                },
                ..st
            },
            match stop_reason {
                Some(reason) => seq![Event::MessageEnd { stop_reason: Some(reason) }],
                None => seq![],
            },
        ),
        Payload::Ping => (
            st,
            seq![Event::ConnectionPhase { phase: ConnectionPhase::Streaming }],
        ),
        Payload::Error { data } => (
            st,
            seq![Event::Error { message: data, retry_after_secs: None }],
        ),
        Payload::Nothing => (st, seq![]),
    }
}

/// A list of one event.
fn one(event: StreamEvent) -> (r: Vec<StreamEvent>)
    ensures
        event_views(r@) == seq![event@],
{
    let mut r: Vec<StreamEvent> = Vec::new();
    emit(&mut r, event);
    assert(event_views(r@) =~= seq![event@]);
    r
}

/// A list of no events.
fn none() -> (r: Vec<StreamEvent>)
    ensures
        event_views(r@) == Seq::<EventView>::empty(),
{
    let r: Vec<StreamEvent> = Vec::new();
    assert(event_views(r@) =~= seq![]);
    r
}

/// The notice that another model answers than the one that was asked for.
fn substitution_text(served: &str, requested: &str) -> (r: String)
    ensures
        r@ == substitution(served@, requested@),
{
    let mut r = owned("⚠ Anthropic served '");
    r.append(served);
    r.append("' instead of requested '");
    r.append(requested);
    r.append("' (requested model unavailable)");
    r
}

/// Handles what an event says: updates the state and returns what the consumer
/// is sent.
pub fn process_payload(
    payload: Payload<String>,
    state: &mut SseStreamState,
    is_oauth: bool,
    oauth_names: &TextMap<String>,
) -> (r: Vec<StreamEvent>)
    ensures
        final(state)@ == payload_step(old(state)@, payload@, is_oauth, oauth_names@).0,
        event_views(r@) == payload_step(old(state)@, payload@, is_oauth, oauth_names@).1,
{
    match payload {
        Payload::MessageStart { model, usage } => {
            let mut events = none();
            match model {
                Some(served) => {
                    let base = to_ascii_lowercase(strip_1m_suffix(served.as_str()));
                    if !state.requested_model_base.as_str().is_empty()
                        && !state.warned_model_substitution && !same(
                        base.as_str(),
                        state.requested_model_base.as_str(),
                    ) {
                        state.warned_model_substitution = true;
                        events = one(
                            Event::StatusDetail {
                                detail: substitution_text(
                                    base.as_str(),
                                    state.requested_model_base.as_str(),
                                ),
                            },
                        );
                    }
                },
                None => {},
            }
            match usage {
                Some(u) => {
                    state.input_tokens = u.input_tokens;
                    state.cache_read_input_tokens = u.cache_read_input_tokens;
                    state.cache_creation_input_tokens = u.cache_creation_input_tokens;
                },
                None => {},
            }
            events
        },
        Payload::Thinking { thinking } => {
            state.current_thinking_block = true;
            let mut events = one(Event::ThinkingStart);
            if !thinking.as_str().is_empty() {
                emit(&mut events, Event::ThinkingDelta(thinking));
                assert(event_views(events@) =~= seq![
                    Event::ThinkingStart,
                    Event::ThinkingDelta(thinking@),
                ]);
            }
            events
        },
        Payload::RedactedThinking => {
            state.current_thinking_block = true;
            one(Event::ThinkingStart)
        },
        Payload::ToolUse { id, name } => {
            let announced = if is_oauth {
                match oauth_names.get(name.as_str()) {
                    Some(mapped) => mapped.clone(),
                    None => name,
                }
            } else {
                name
            };
            state.current_tool_use = Some(ToolUseAccumulator { input_json: String::new() });
            assert(state@.tool->0 =~= seq![]);
            one(Event::ToolUseStart { id, name: announced })
        },
        Payload::Text { text } => one(Event::TextDelta(text)),
        Payload::InputJson { partial_json } => {
            let mut open: Option<ToolUseAccumulator> = None;
            std::mem::swap(&mut open, &mut state.current_tool_use);
            match open {
                Some(mut tool) => {
                    tool.input_json.append(partial_json.as_str());
                    state.current_tool_use = Some(tool);
                },
                None => {},
            }
            one(Event::ToolInputDelta(partial_json))
        },
        Payload::ThinkingDelta { thinking } => one(Event::ThinkingDelta(thinking)),
        Payload::Signature { signature } => one(Event::ThinkingSignatureDelta(signature)),
        Payload::BlockStop => {
            if state.current_tool_use.is_some() {
                state.current_tool_use = None;
                one(Event::ToolUseEnd)
            } else if state.current_thinking_block {
                state.current_thinking_block = false;
                one(Event::ThinkingEnd)
            } else {
                none()
            }
        },
        Payload::MessageDelta { stop_reason, reported } => {
            match reported {
                Some(n) => {
                    state.output_tokens = n;
                },
                None => {},
            }
            match stop_reason {
                Some(reason) => one(Event::MessageEnd { stop_reason: Some(reason) }),
                None => none(),
            }
        },
        Payload::Ping => one(Event::ConnectionPhase { phase: ConnectionPhase::Streaming }),
        Payload::Error { data } => one(Event::Error { message: data, retry_after_secs: None }),
        Payload::Nothing => none(),
    }
}

/// Handles one event of the stream. In an OAuth session the tool names of
/// `oauth_names` are announced under the names that they stand for.
pub fn process_sse_event(
    event: &SseEvent,
    state: &mut SseStreamState,
    is_oauth: bool,
    oauth_names: &TextMap<String>,
) -> (r: Vec<StreamEvent>)
    ensures
        final(state)@ == payload_step(old(state)@, payload_of(event@), is_oauth, oauth_names@).0,
        event_views(r@) == payload_step(old(state)@, payload_of(event@), is_oauth, oauth_names@).1,
{
    process_payload(read_payload(event), state, is_oauth, oauth_names)
}

/// A substituted model is reported at most once in a stream: no payload reports
/// one once one has been reported, and none takes the report back.
pub proof fn law_one_substitution_notice(
    st: SseStateView,
    payload: Payload<Seq<char>>,
    is_oauth: bool,
    oauth: Map<Seq<char>, String>,
)
    ensures
        ({
            let step = payload_step(st, payload, is_oauth, oauth);
            &&& st.warned ==> step.0.warned
            &&& st.warned ==> (forall|i: int|
                0 <= i < step.1.len() ==> !(#[trigger] step.1[i] is StatusDetail))
            &&& (exists|i: int| 0 <= i < step.1.len() && #[trigger] step.1[i] is StatusDetail)
                ==> step.0.warned
            &&& step.0.requested == st.requested
        }),
{
}

/// Pings reach the consumer, so that a silent stream is seen to be alive, and
/// change nothing.
pub proof fn law_pings_are_surfaced(
    st: SseStateView,
    data: Seq<char>,
    is_oauth: bool,
    oauth: Map<Seq<char>, String>,
)
    ensures
        payload_step(
            st,
            payload_of(SseView { event_type: "ping"@, data }),
            is_oauth,
            oauth,
        ) == (st, seq![Event::<Seq<char>>::ConnectionPhase { phase: ConnectionPhase::Streaming }]),
{
    reveal_strlit("ping");
    reveal_strlit("content_block_stop");
    assert("ping"@.len() != "content_block_stop"@.len());
}

/// The end of a block ends what the block began: a tool call that began is ended
/// after its input, and so is a thinking block outside of one.
pub proof fn law_blocks_end_what_they_began(
    st: SseStateView,
    id: Seq<char>,
    name: Seq<char>,
    input: Seq<char>,
    is_oauth: bool,
    oauth: Map<Seq<char>, String>,
)
    ensures
        ({
            let begun = payload_step(st, Payload::ToolUse { id, name }, is_oauth, oauth).0;
            let fed = payload_step(
                begun,
                Payload::InputJson { partial_json: input },
                is_oauth,
                oauth,
            ).0;
            &&& fed.tool == Some(input)
            &&& payload_step(fed, Payload::BlockStop, is_oauth, oauth) == (
                SseStateView { tool: None, ..st },
                seq![Event::<Seq<char>>::ToolUseEnd],
            )
        }),
        st.tool is None ==> {
            let thinking = payload_step(st, Payload::RedactedThinking, is_oauth, oauth).0;
            payload_step(thinking, Payload::BlockStop, is_oauth, oauth) == (
                SseStateView { thinking: false, ..st },
                seq![Event::<Seq<char>>::ThinkingEnd],
            )
        },
{
    assert(Seq::<char>::empty() + input =~= input);
}

} // verus!
