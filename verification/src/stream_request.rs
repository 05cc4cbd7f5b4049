//! One turn's request: what to do next, whatever happens.
//!
//! Sending a request takes outside work: a token, the seat's endpoint, perhaps
//! the catalog, the request itself and its stream. [`StreamRequest::step`] takes
//! what came of the last piece of work and says what is to be done next. A
//! request is tried three times at most.

use crate::catalog::{endpoint_in, specs_of, SpecView};
use crate::catalog_store::PersistedCopilotCatalog;
use crate::chat_request::{chat_body, COPILOT_API_VERSION};
use crate::context_limits::{limits_after, stated_windows, ContextLimits};
use crate::copilot_catalog::{path_of, CopilotEndpoint, CopilotModelInfo};
use crate::copilot_enterprise::CopilotDeployment;
use crate::credentials::{auth_failed, is_auth_error, moved_base, refresh_api_base_after_forbidden};
use crate::errors::{annotate, annotated, OauthApp, UNSUPPORTED_API_FOR_MODEL};
use crate::json::{json_views, Json, JsonView};
use crate::message::{
    emit, event_views, text_option, ConnectionPhase, Event, EventView, StreamEvent,
};
use crate::messages_request::{messages_body, ANTHROPIC_BETA};
use crate::provider::{effort_to_send, CopilotApiProvider, SharedCatalog, SharedView, OPENAI_INTENT};
use crate::responses_request::responses_body;
use crate::startup::{endpoint_for_model, filed_as, known_endpoint, rerouted, usable_of};
use crate::text::{concat, contains, in_small_letters, lowered, occurs, owned};
use vstd::prelude::*;

verus! {

/// How often a request is tried.
pub const MAX_RETRIES: u32 = 3;

/// The largest output to ask for; a model's own cap may be smaller.
pub const MAX_TOKENS: u32 = 32_768;

/// Whether an error, in small letters, may pass if the request is tried again.
/// `transient` says whether it looks like a fault of the transport.
pub open spec fn retryable(error: Seq<char>, transient: bool) -> bool {
    ||| transient
    ||| occurs(error, "500 internal server error"@)
    ||| occurs(error, "502 bad gateway"@)
    ||| occurs(error, "503 service unavailable"@)
    ||| occurs(error, "504 gateway timeout"@)
    ||| occurs(error, "overloaded"@)
    ||| occurs(error, "429 too many requests"@)
    ||| occurs(error, "rate limit"@)
    ||| occurs(error, "rate_limit"@)
    ||| occurs(error, "stream error"@)
    ||| occurs(error, "stream read timeout"@)
}

/// Whether an error, in small letters, may pass if the request is tried again.
pub fn is_retryable_error(error: &str, transient: bool) -> (r: bool)
    ensures
        r == retryable(error@, transient),
{
    transient || contains(error, "500 internal server error") || contains(error, "502 bad gateway")
        || contains(error, "503 service unavailable") || contains(error, "504 gateway timeout")
        || contains(error, "overloaded") || contains(error, "429 too many requests") || contains(
        error,
        "rate limit",
    ) || contains(error, "rate_limit") || contains(error, "stream error") || contains(
        error,
        "stream read timeout",
    )
}

/// A turn in the shape of each of the routes.
pub struct TurnPayload {
    pub system: String,
    pub chat_messages: Vec<Json>,
    pub chat_tools: Vec<Json>,
    /// The system parameter, messages and tools of the Messages API.
    pub messages_system: Option<Json>,
    pub messages: Vec<Json>,
    pub messages_tools: Vec<Json>,
    /// The input and tools of the Responses API.
    pub responses_input: Vec<Json>,
    pub responses_tools: Vec<Json>,
}

/// The output to ask for: no more than the model allows.
pub open spec fn output_limit(specs: Map<Seq<char>, SpecView>, model: Seq<char>) -> int {
    if specs.contains_key(model) && specs[model].max_output_tokens is Some {
        let cap = specs[model].max_output_tokens->0;
        if cap < 32_768 {
            cap as int
        } else {
            32_768
        }
    } else {
        32_768
    }
}

/// The body of a request.
pub open spec fn request_body(
    endpoint: CopilotEndpoint,
    model: Seq<char>,
    payload: TurnPayload,
    max_tokens: u32,
    effort: Option<Seq<char>>,
) -> JsonView {
    match endpoint {
        CopilotEndpoint::Messages => messages_body(
            model,
            crate::provider::value_option(payload.messages_system),
            json_views(payload.messages@),
            json_views(payload.messages_tools@),
            max_tokens,
            effort,
        ),
        CopilotEndpoint::Responses => responses_body(
            model,
            payload.system@,
            json_views(payload.responses_input@),
            json_views(payload.responses_tools@),
            max_tokens,
            effort,
        ),
        CopilotEndpoint::ChatCompletions => chat_body(
            model,
            json_views(payload.chat_messages@),
            json_views(payload.chat_tools@),
            max_tokens,
            effort,
        ),
    }
}

/// What identifies a request: an id of its own, and the editor that sends it.
pub struct RequestIds<'a> {
    pub request_id: &'a str,
    pub editor_version: &'a str,
}

/// A request to send.
#[derive(Debug)]
pub struct HttpRequest {
    pub url: String,
    pub headers: Vec<(String, String)>,
    pub body: Json,
    /// Whether to send it over a connection of its own. A fault that broke one
    /// attempt can have spoiled other connections of the pool.
    pub fresh_connection: bool,
}

/// The model of [`HttpRequest`].
pub struct HttpView {
    pub url: Seq<char>,
    pub headers: Seq<(Seq<char>, Seq<char>)>,
    pub body: JsonView,
    pub fresh_connection: bool,
}

/// The models of a list of headers.
pub open spec fn header_views(headers: Seq<(String, String)>) -> Seq<(Seq<char>, Seq<char>)> {
    headers.map_values(|h: (String, String)| (h.0@, h.1@))
}

impl View for HttpRequest {
    type V = HttpView;

    open spec fn view(&self) -> HttpView {
        HttpView {
            url: self.url@,
            headers: header_views(self.headers@),
            body: self.body@,
            fresh_connection: self.fresh_connection,
        }
    }
}

/// The headers of a request.
pub open spec fn request_headers(
    token: Seq<char>,
    user_initiated: bool,
    request_id: Seq<char>,
    editor_version: Seq<char>,
    has_images: bool,
    endpoint: CopilotEndpoint,
) -> Seq<(Seq<char>, Seq<char>)> {
    let plain = seq![
        ("Authorization"@, "Bearer "@ + token),
        ("Content-Type"@, "application/json"@),
        (
            "X-Initiator"@,
            if user_initiated {
                "user"@
            } else {
                "agent"@
            },
        ),
        ("X-Request-Id"@, request_id),
        ("X-GitHub-Api-Version"@, "2026-06-01"@),
        ("User-Agent"@, editor_version),
        ("Editor-Version"@, editor_version),
        ("Openai-Intent"@, "conversation-edits"@),
    ];
    let seeing = if has_images {
        plain.push(("Copilot-Vision-Request"@, "true"@))
    } else {
        plain
    };
    if endpoint is Messages {
        seeing.push(("anthropic-beta"@, "interleaved-thinking-2025-05-14"@))
    } else {
        seeing
    }
}

/// What came of a piece of outside work.
#[derive(Debug)]
pub enum Happened {
    /// The wait before an attempt is over.
    Ready,
    /// There is a token, or a message that there is none.
    Token(Result<String, String>),
    /// The base URL is known.
    Base(String),
    /// The catalog was fetched, or could not be.
    Catalog(Option<Vec<CopilotModelInfo>>),
    /// The request could not be sent. `chain` is the message with its causes.
    SendFailed { message: String, chain: String, transient: bool },
    /// The answer came; `status_text` is its status line, and `body` its body
    /// where the status is no success.
    Answered { status: u16, status_text: String, body: String, transient: bool },
    /// The seat was looked up again after a 403.
    Rediscovered { base: Option<String>, status_text: String, body: String, transient: bool },
    /// The stream was decoded to its end.
    Streamed,
    /// The stream failed; `saw_output` says whether the consumer got anything of
    /// it.
    StreamFailed { message: String, chain: String, transient: bool, saw_output: bool },
}

/// What is to be done next.
#[derive(Debug)]
pub enum Action {
    /// Wait before the attempt of this number, counted from zero.
    Sleep { attempt: u32 },
    GetToken,
    ResolveBase { token: String },
    FetchCatalog { token: String },
    Send(HttpRequest),
    /// Look the seat up again, which sent requests to `base`.
    Rediscover { token: String, base: String },
    Stream { endpoint: CopilotEndpoint },
    /// Nothing is left to do.
    Finish,
    /// Report this error; nothing is left to do.
    Fail(String),
}

/// The model of [`Action`].
pub enum ActionView {
    Sleep { attempt: u32 },
    GetToken,
    ResolveBase { token: Seq<char> },
    FetchCatalog { token: Seq<char> },
    Send(HttpView),
    Rediscover { token: Seq<char>, base: Seq<char> },
    Stream { endpoint: CopilotEndpoint },
    Finish,
    Fail(Seq<char>),
}

impl View for Action {
    type V = ActionView;

    open spec fn view(&self) -> ActionView {
        match *self {
            Action::Sleep { attempt } => ActionView::Sleep { attempt },
            Action::GetToken => ActionView::GetToken,
            Action::ResolveBase { token } => ActionView::ResolveBase { token: token@ },
            Action::FetchCatalog { token } => ActionView::FetchCatalog { token: token@ },
            Action::Send(request) => ActionView::Send(request@),
            Action::Rediscover { token, base } => ActionView::Rediscover {
                token: token@,
                base: base@,
            },
            Action::Stream { endpoint } => ActionView::Stream { endpoint },
            Action::Finish => ActionView::Finish,
            Action::Fail(message) => ActionView::Fail(message@),
        }
    }
}

/// The state of a request.
pub struct StreamRequest {
    /// The number of the current attempt, counted from zero.
    pub attempt: u32,
    pub model: String,
    pub token: String,
    pub base: Option<String>,
    pub endpoint: CopilotEndpoint,
    pub user_initiated: bool,
    pub has_images: bool,
}

/// The model of [`StreamRequest`].
pub struct RequestView {
    pub attempt: u32,
    pub model: Seq<char>,
    pub token: Seq<char>,
    pub base: Option<Seq<char>>,
    pub endpoint: CopilotEndpoint,
    pub user_initiated: bool,
    pub has_images: bool,
}

impl View for StreamRequest {
    type V = RequestView;

    open spec fn view(&self) -> RequestView {
        RequestView {
            attempt: self.attempt,
            model: self.model@,
            token: self.token@,
            base: text_option(self.base),
            endpoint: self.endpoint,
            user_initiated: self.user_initiated,
            has_images: self.has_images,
        }
    }
}

/// What a request reads of its surroundings.
pub struct Surroundings<'a> {
    pub payload: &'a TurnPayload,
    pub provider: &'a CopilotApiProvider,
    pub deployment: &'a CopilotDeployment,
    pub app: &'a OauthApp<'a>,
    pub ids: &'a RequestIds<'a>,
    pub now_rfc3339: &'a str,
}

/// The step that a request takes.
#[derive(Debug)]
pub struct RequestStep {
    /// What the consumer is sent.
    pub events: Vec<StreamEvent>,
    pub action: Action,
    /// A catalog to file.
    pub filed: Option<PersistedCopilotCatalog>,
}

/// What a step comes to: the state after it, what the consumer is sent, and what
/// is to be done.
pub struct Outcome {
    pub state: RequestView,
    pub events: Seq<EventView>,
    pub action: ActionView,
}

/// The request goes on with `action`.
pub open spec fn goes_on(st: RequestView, action: ActionView) -> Outcome {
    Outcome { state: st, events: seq![], action }
}

/// The request fails with a message.
pub open spec fn fails(st: RequestView, message: Seq<char>) -> Outcome {
    goes_on(st, ActionView::Fail(message))
}

/// Whether another attempt may follow.
pub open spec fn may_retry(st: RequestView) -> bool {
    st.attempt + 1 < MAX_RETRIES
}

/// The next attempt begins: the consumer is told, and there is a wait.
pub open spec fn retries(st: RequestView) -> Outcome {
    Outcome {
        state: RequestView { attempt: (st.attempt + 1) as u32, ..st },
        events: seq![
            Event::ConnectionPhase {
                phase: ConnectionPhase::Retrying {
                    attempt: (st.attempt + 2) as u32,
                    max: MAX_RETRIES,
                },
            },
        ],
        action: ActionView::Sleep { attempt: (st.attempt + 1) as u32 },
    }
}

/// The request that a state sends.
pub open spec fn request_of(
    st: RequestView,
    around: Surroundings<'_>,
    specs: Map<Seq<char>, SpecView>,
) -> HttpView {
    HttpView {
        url: (match st.base {
            Some(base) => base,
            None => seq![],
        }) + path_of(st.endpoint),
        headers: request_headers(
            st.token,
            st.user_initiated,
            around.ids.request_id@,
            around.ids.editor_version@,
            st.has_images,
            st.endpoint,
        ),
        body: request_body(
            st.endpoint,
            st.model,
            *around.payload,
            output_limit(specs, st.model) as u32,
            effort_to_send(around.provider@, specs, st.model),
        ),
        fresh_connection: st.attempt > 0,
    }
}

/// The request is routed by the catalog and sent; a catalog that does not
/// describe the model is fetched first.
pub open spec fn routes(
    st: RequestView,
    around: Surroundings<'_>,
    specs: Map<Seq<char>, SpecView>,
) -> Outcome {
    if specs.contains_key(st.model) {
        let routed = RequestView { endpoint: specs[st.model].endpoint, ..st };
        goes_on(routed, ActionView::Send(request_of(routed, around, specs)))
    } else {
        goes_on(st, ActionView::FetchCatalog { token: st.token })
    }
}

/// The message for a request that could not be sent.
pub open spec fn send_failure(message: Seq<char>) -> Seq<char> {
    "Copilot API request failed: "@ + message
}

/// The message for an answer that is no success.
pub open spec fn api_failure(status_text: Seq<char>, body: Seq<char>) -> Seq<char> {
    "Copilot API error (HTTP "@ + status_text + "): "@ + body
}

/// The message for a token that is not accepted.
pub open spec fn auth_failure(status_text: Seq<char>, body: Seq<char>) -> Seq<char> {
    "Copilot authentication failed (HTTP "@ + status_text
        + "). Run `jcode login --provider copilot` to re-authenticate: "@ + body
}

/// Whether an answer says that the model was sent to an endpoint that it does
/// not serve.
pub open spec fn is_stale_route(status: u16, body: Seq<char>) -> bool {
    status == 400 && occurs(body, "unsupported_api_for_model"@)
}

/// The request is tried again if the error may pass, and fails otherwise.
pub open spec fn after_refusal(
    st: RequestView,
    around: Surroundings<'_>,
    status: u16,
    status_text: Seq<char>,
    body: Seq<char>,
    may_pass: bool,
) -> Outcome {
    if may_pass && may_retry(st) {
        retries(st)
    } else {
        fails(
            st,
            api_failure(
                status_text,
                annotated(
                    status,
                    body,
                    around.deployment@,
                    around.app.client_id@,
                    around.app.client_id_env@,
                ),
            ),
        )
    }
}

/// What an answer leads to. `specs` is what the catalog says before the answer.
pub open spec fn after_answer(
    st: RequestView,
    around: Surroundings<'_>,
    specs: Map<Seq<char>, SpecView>,
    status: u16,
    status_text: Seq<char>,
    body: Seq<char>,
    may_pass: bool,
) -> Outcome {
    if auth_failed(status) {
        fails(st, auth_failure(status_text, body))
    } else if 200 <= status < 300 {
        Outcome {
            state: st,
            events: seq![
                Event::ConnectionType { connection: "copilot-api ("@ + st.model + ")"@ },
            ],
            action: ActionView::Stream { endpoint: st.endpoint },
        }
    } else if is_stale_route(status, body) && may_retry(st) && specs.contains_key(st.model) {
        retries(st)
    } else if status == 403 && may_retry(st) {
        goes_on(
            st,
            ActionView::Rediscover {
                token: st.token,
                base: match st.base {
                    Some(base) => base,
                    None => seq![],
                },
            },
        )
    } else {
        after_refusal(st, around, status, status_text, body, may_pass)
    }
}

/// What the catalog says after an answer: a model that was sent to an endpoint
/// that it does not serve is forgotten, so that the next attempt asks again.
pub open spec fn specs_after_answer(
    st: RequestView,
    specs: Map<Seq<char>, SpecView>,
    status: u16,
    body: Seq<char>,
) -> Map<Seq<char>, SpecView> {
    if is_stale_route(status, body) && may_retry(st) {
        specs.remove(st.model)
    } else {
        specs
    }
}

/// What a second lookup of the seat leads to: another attempt where the seat has
/// moved.
pub open spec fn after_rediscovery(
    st: RequestView,
    around: Surroundings<'_>,
    base: Option<Seq<char>>,
    status_text: Seq<char>,
    body: Seq<char>,
    may_pass: bool,
) -> Outcome {
    let previous = match st.base {
        Some(base) => base,
        None => seq![],
    };
    match moved_base(previous, base) {
        Some(moved) => if may_retry(st) {
            retries(RequestView { base: Some(moved), ..st })
        } else {
            after_refusal(st, around, 403, status_text, body, may_pass)
        },
        None => after_refusal(st, around, 403, status_text, body, may_pass),
    }
}

/// What a failed stream leads to: another attempt where the error may pass, with
/// what the consumer got of this one taken back.
pub open spec fn after_stream_failure(
    st: RequestView,
    message: Seq<char>,
    may_pass: bool,
    saw_output: bool,
) -> Outcome {
    if may_pass && may_retry(st) {
        let next = retries(st);
        Outcome {
            events: if saw_output {
                seq![
                    Event::RetryRollback {
                        attempt: (st.attempt + 2) as u32,
                        max: MAX_RETRIES,
                    },
                ] + next.events
            } else {
                next.events
            },
            ..next
        }
    } else {
        fails(st, message)
    }
}

/// What a request that could not be sent leads to.
pub open spec fn after_send_failure(
    st: RequestView,
    message: Seq<char>,
    may_pass: bool,
) -> Outcome {
    if may_pass && may_retry(st) {
        retries(st)
    } else {
        fails(st, send_failure(message))
    }
}

/// What a step comes to. `specs` is what the catalog says before it.
pub open spec fn outcome(
    st: RequestView,
    happened: Happened,
    around: Surroundings<'_>,
    specs: Map<Seq<char>, SpecView>,
) -> Outcome {
    match happened {
        Happened::Ready => goes_on(st, ActionView::GetToken),
        Happened::Token(Err(message)) => fails(st, message@),
        Happened::Token(Ok(token)) => {
            let known = RequestView { token: token@, ..st };
            match st.base {
                None => goes_on(known, ActionView::ResolveBase { token: token@ }),
                Some(_) => routes(known, around, specs),
            }
        },
        Happened::Base(base) => routes(
            RequestView { base: Some(base@), ..st },
            around,
            specs,
        ),
        Happened::Catalog(fetched) => {
            let after = match fetched {
                Some(fetched) => {
                    let models = usable_of(fetched@);
                    specs_of(models, models.len() as int)
                },
                None => specs,
            };
            let routed = RequestView {
                endpoint: match fetched {
                    Some(_) => endpoint_in(after, st.model),
                    None => CopilotEndpoint::ChatCompletions,
                },
                ..st
            };
            goes_on(routed, ActionView::Send(request_of(routed, around, after)))
        },
        Happened::SendFailed { message, chain, transient } => after_send_failure(
            st,
            message@,
            retryable(lowered(chain@), transient),
        ),
        Happened::Answered { status, status_text, body, transient } => after_answer(
            st,
            around,
            specs,
            status,
            status_text@,
            body@,
            retryable(lowered(api_failure(status_text@, body@)), transient),
        ),
        Happened::Rediscovered { base, status_text, body, transient } => after_rediscovery(
            st,
            around,
            text_option(base),
            status_text@,
            body@,
            retryable(lowered(api_failure(status_text@, body@)), transient),
        ),
        Happened::Streamed => goes_on(st, ActionView::Finish),
        Happened::StreamFailed { message, chain, transient, saw_output } => after_stream_failure(
            st,
            message@,
            retryable(lowered(chain@), transient),
            saw_output,
        ),
    }
}

/// What is shared after a step.
pub open spec fn shared_after(st: RequestView, happened: Happened, shared: SharedView) -> SharedView {
    match happened {
        Happened::Catalog(Some(fetched)) => rerouted(shared, fetched@),
        Happened::Answered { status, status_text: _, body, transient: _ } => if auth_failed(status)
            || 200 <= status < 300 {
            shared
        } else {
            SharedView { specs: specs_after_answer(st, shared.specs, status, body@), ..shared }
        },
        _ => shared,
    }
}

/// The context windows that the process knows after a step.
pub open spec fn limits_after_step(happened: Happened, limits: Map<Seq<char>, usize>) -> Map<
    Seq<char>,
    usize,
> {
    match happened {
        Happened::Catalog(Some(fetched)) => {
            let models = usable_of(fetched@);
            limits_after(limits, stated_windows(models, models.len() as int))
        },
        _ => limits,
    }
}

/// A step without events.
fn quiet(action: Action) -> (r: RequestStep)
    ensures
        r.action == action,
        event_views(r.events@) == Seq::<EventView>::empty(),
        r.filed is None,
{
    let r = RequestStep { events: Vec::new(), action, filed: None };
    assert(event_views(r.events@) =~= Seq::empty());
    r
}

/// The message for an answer that is no success.
pub fn api_failure_text(status_text: &str, body: &str) -> (r: String)
    ensures
        r@ == api_failure(status_text@, body@),
{
    let mut r = concat("Copilot API error (HTTP ", status_text);
    r.append("): ");
    r.append(body);
    r
}

/// Adds a header.
fn add_header(headers: &mut Vec<(String, String)>, name: &str, value: &str)
    ensures
        header_views(final(headers)@) == header_views(old(headers)@).push((name@, value@)),
{
    let ghost before = headers@;
    headers.push((owned(name), owned(value)));
    assert(header_views(headers@) =~= header_views(before).push((name@, value@)));
}

/// The headers of a request.
fn build_headers(
    token: &str,
    user_initiated: bool,
    ids: &RequestIds<'_>,
    has_images: bool,
    endpoint: CopilotEndpoint,
) -> (r: Vec<(String, String)>)
    ensures
        header_views(r@) == request_headers(
            token@,
            user_initiated,
            ids.request_id@,
            ids.editor_version@,
            has_images,
            endpoint,
        ),
{
    let mut r: Vec<(String, String)> = Vec::new();
    assert(header_views(r@) =~= Seq::empty());
    let bearer = concat("Bearer ", token);
    add_header(&mut r, "Authorization", bearer.as_str());
    add_header(&mut r, "Content-Type", "application/json");
    if user_initiated {
        add_header(&mut r, "X-Initiator", "user");
    } else {
        add_header(&mut r, "X-Initiator", "agent");
    }
    add_header(&mut r, "X-Request-Id", ids.request_id);
    add_header(&mut r, "X-GitHub-Api-Version", COPILOT_API_VERSION);
    add_header(&mut r, "User-Agent", ids.editor_version);
    add_header(&mut r, "Editor-Version", ids.editor_version);
    add_header(&mut r, "Openai-Intent", OPENAI_INTENT);
    if has_images {
        add_header(&mut r, "Copilot-Vision-Request", "true");
    }
    match endpoint {
        CopilotEndpoint::Messages => {
            add_header(&mut r, "anthropic-beta", ANTHROPIC_BETA);
        },
        _ => {},
    }
    assert(header_views(r@) =~= request_headers(
        token@,
        user_initiated,
        ids.request_id@,
        ids.editor_version@,
        has_images,
        endpoint,
    ));
    r
}

/// The output to ask for.
fn output_limit_for(shared: &SharedCatalog, model: &str) -> (r: u32)
    ensures
        r == output_limit(shared@.specs, model@),
{
    match shared.model_specs.max_output_tokens_for(model) {
        Some(cap) => {
            if cap < 32_768 {
                cap as u32
            } else {
                MAX_TOKENS
            }
        },
        None => MAX_TOKENS,
    }
}

impl StreamRequest {
    /// A request for a turn.
    pub fn new(model: String, user_initiated: bool, has_images: bool) -> (r: StreamRequest)
        ensures
            r@ == (RequestView {
                attempt: 0,
                model: model@,
                token: seq![],
                base: None,
                endpoint: CopilotEndpoint::ChatCompletions,
                user_initiated,
                has_images,
            }),
    {
        let r = StreamRequest {
            attempt: 0,
            model,
            token: String::new(),
            base: None,
            endpoint: CopilotEndpoint::ChatCompletions,
            user_initiated,
            has_images,
        };
        assert(r@.token =~= seq![]);
        r
    }

    /// The base URL, or nothing before it is known.
    fn base_text(&self) -> (r: String)
        ensures
            r@ == (match self@.base {
                Some(base) => base,
                None => seq![],
            }),
    {
        match &self.base {
            Some(base) => base.clone(),
            None => {
                let empty: String = String::new();
                assert(empty@ =~= seq![]);
                empty
            },
        }
    }

    /// Builds the request to send.
    fn build(&self, around: &Surroundings<'_>, shared: &SharedCatalog) -> (r: HttpRequest)
        ensures
            r@ == request_of(self@, *around, shared@.specs),
    {
        let model = self.model.as_str();
        let max_tokens: u32 = output_limit_for(shared, model);
        let effort = around.provider.reasoning_effort_for(shared, model);
        let effort = match &effort {
            Some(effort) => Some(effort.as_str()),
            None => None,
        };
        let payload = around.payload;
        let body = match self.endpoint {
            CopilotEndpoint::Messages => crate::messages_request::build_request(
                model,
                match &payload.messages_system {
                    Some(system) => Some(system),
                    None => None,
                },
                &payload.messages,
                &payload.messages_tools,
                max_tokens,
                effort,
            ),
            CopilotEndpoint::Responses => crate::responses_request::build_request(
                model,
                payload.system.as_str(),
                &payload.responses_input,
                &payload.responses_tools,
                max_tokens,
                effort,
            ),
            CopilotEndpoint::ChatCompletions => crate::chat_request::build_request(
                model,
                &payload.chat_messages,
                &payload.chat_tools,
                max_tokens,
                effort,
            ),
        };
        let mut url = self.base_text();
        url.append(self.endpoint.path());
        HttpRequest {
            url,
            headers: build_headers(
                self.token.as_str(),
                self.user_initiated,
                around.ids,
                self.has_images,
                self.endpoint,
            ),
            body,
            fresh_connection: self.attempt > 0,
        }
    }

    /// Routes the request by the catalog.
    fn route(&mut self, around: &Surroundings<'_>, shared: &SharedCatalog) -> (r: RequestStep)
        ensures
            ({
                let o = routes(old(self)@, *around, shared@.specs);
                &&& final(self)@ == o.state
                &&& event_views(r.events@) == o.events
                &&& r.action@ == o.action
                &&& r.filed is None
            }),
    {
        match known_endpoint(shared, self.model.as_str()) {
            Some(endpoint) => {
                self.endpoint = endpoint;
                quiet(Action::Send(self.build(around, shared)))
            },
            None => quiet(Action::FetchCatalog { token: self.token.clone() }),
        }
    }

    /// Begins the next attempt.
    fn retry(&mut self, events: Vec<StreamEvent>) -> (r: RequestStep)
        requires
            may_retry(old(self)@),
        ensures
            final(self)@ == retries(old(self)@).state,
            event_views(r.events@) == event_views(events@) + retries(old(self)@).events,
            r.action@ == retries(old(self)@).action,
            r.filed is None,
    {
        let ghost before = event_views(events@);
        let mut events = events;
        emit(
            &mut events,
            Event::ConnectionPhase {
                phase: ConnectionPhase::Retrying { attempt: self.attempt + 2, max: MAX_RETRIES },
            },
        );
        assert(event_views(events@) =~= before + retries(self@).events);
        self.attempt = self.attempt + 1;
        RequestStep { events, action: Action::Sleep { attempt: self.attempt }, filed: None }
    }

    /// Begins the next attempt, with nothing else to tell.
    fn retry_plainly(&mut self) -> (r: RequestStep)
        requires
            may_retry(old(self)@),
        ensures
            final(self)@ == retries(old(self)@).state,
            event_views(r.events@) == retries(old(self)@).events,
            r.action@ == retries(old(self)@).action,
            r.filed is None,
    {
        let events: Vec<StreamEvent> = Vec::new();
        assert(event_views(events@) + retries(self@).events =~= retries(self@).events);
        self.retry(events)
    }

    /// Handles an answer that is no success and that nothing else is done about.
    /// `may_pass` says whether the error may pass if the request is tried again.
    pub fn refused(
        &mut self,
        around: &Surroundings<'_>,
        status: u16,
        status_text: &str,
        body: &str,
        may_pass: bool,
    ) -> (r: RequestStep)
        requires
            old(self)@.attempt < MAX_RETRIES,
        ensures
            ({
                let o = after_refusal(
                    old(self)@,
                    *around,
                    status,
                    status_text@,
                    body@,
                    may_pass,
                );
                &&& final(self)@ == o.state
                &&& event_views(r.events@) == o.events
                &&& r.action@ == o.action
                &&& r.filed is None
            }),
    {
        if may_pass && self.attempt + 1 < MAX_RETRIES {
            return self.retry_plainly();
        }
        let body = annotate(status, body, around.deployment, around.app);
        quiet(Action::Fail(api_failure_text(status_text, body.as_str())))
    }

    /// Handles an answer.
    pub fn answered(
        &mut self,
        around: &Surroundings<'_>,
        shared: &mut SharedCatalog,
        status: u16,
        status_text: &str,
        body: &str,
        may_pass: bool,
    ) -> (r: RequestStep)
        requires
            old(self)@.attempt < MAX_RETRIES,
        ensures
            ({
                let o = after_answer(
                    old(self)@,
                    *around,
                    old(shared)@.specs,
                    status,
                    status_text@,
                    body@,
                    may_pass,
                );
                &&& final(self)@ == o.state
                &&& event_views(r.events@) == o.events
                &&& r.action@ == o.action
                &&& r.filed is None
            }),
            final(shared)@ == (if auth_failed(status) || 200 <= status < 300 {
                old(shared)@
            } else {
                SharedView {
                    specs: specs_after_answer(
                        old(self)@,
                        old(shared)@.specs,
                        status,
                        body@,
                    ),
                    ..old(shared)@
                }
            }),
    {
        if is_auth_error(status) {
            let mut message = concat("Copilot authentication failed (HTTP ", status_text);
            message.append("). Run `jcode login --provider copilot` to re-authenticate: ");
            message.append(body);
            return quiet(Action::Fail(message));
        }
        if 200 <= status && status < 300 {
            let mut events: Vec<StreamEvent> = Vec::new();
            let mut connection = concat("copilot-api (", self.model.as_str());
            connection.append(")");
            emit(&mut events, Event::ConnectionType { connection });
            assert(event_views(events@) =~= seq![
                Event::ConnectionType { connection: "copilot-api ("@ + self@.model + ")"@ },
            ]);
            return RequestStep {
                events,
                action: Action::Stream { endpoint: self.endpoint },
                filed: None,
            };
        }
        if status == 400 && contains(body, UNSUPPORTED_API_FOR_MODEL) && self.attempt + 1
            < MAX_RETRIES && shared.model_specs.forget(self.model.as_str()) {
            return self.retry_plainly();
        }
        assert(is_stale_route(status, body@) && may_retry(self@) ==> old(shared)@.specs.remove(
            self@.model,
        ) =~= old(shared)@.specs);
        if status == 403 && self.attempt + 1 < MAX_RETRIES {
            return quiet(
                Action::Rediscover { token: self.token.clone(), base: self.base_text() },
            );
        }
        self.refused(around, status, status_text, body, may_pass)
    }

    /// Handles a second lookup of the seat.
    pub fn rediscovered(
        &mut self,
        around: &Surroundings<'_>,
        base: Option<String>,
        status_text: &str,
        body: &str,
        may_pass: bool,
    ) -> (r: RequestStep)
        requires
            old(self)@.attempt < MAX_RETRIES,
        ensures
            ({
                let o = after_rediscovery(
                    old(self)@,
                    *around,
                    text_option(base),
                    status_text@,
                    body@,
                    may_pass,
                );
                &&& final(self)@ == o.state
                &&& event_views(r.events@) == o.events
                &&& r.action@ == o.action
                &&& r.filed is None
            }),
    {
        let previous = self.base_text();
        match refresh_api_base_after_forbidden(previous.as_str(), base) {
            Some(moved) => {
                if self.attempt + 1 < MAX_RETRIES {
                    self.base = Some(moved);
                    return self.retry_plainly();
                }
            },
            None => {},
        }
        self.refused(around, 403, status_text, body, may_pass)
    }

    /// Handles a request that could not be sent.
    pub fn send_failed(&mut self, message: &str, may_pass: bool) -> (r: RequestStep)
        requires
            old(self)@.attempt < MAX_RETRIES,
        ensures
            ({
                let o = after_send_failure(old(self)@, message@, may_pass);
                &&& final(self)@ == o.state
                &&& event_views(r.events@) == o.events
                &&& r.action@ == o.action
                &&& r.filed is None
            }),
    {
        if may_pass && self.attempt + 1 < MAX_RETRIES {
            self.retry_plainly()
        } else {
            quiet(Action::Fail(concat("Copilot API request failed: ", message)))
        }
    }

    /// Handles a stream that failed.
    pub fn stream_failed(&mut self, message: String, may_pass: bool, saw_output: bool) -> (r:
        RequestStep)
        requires
            old(self)@.attempt < MAX_RETRIES,
        ensures
            ({
                let o = after_stream_failure(old(self)@, message@, may_pass, saw_output);
                &&& final(self)@ == o.state
                &&& event_views(r.events@) == o.events
                &&& r.action@ == o.action
                &&& r.filed is None
            }),
    {
        if !(may_pass && self.attempt + 1 < MAX_RETRIES) {
            return quiet(Action::Fail(message));
        }
        if !saw_output {
            return self.retry_plainly();
        }
        let mut events: Vec<StreamEvent> = Vec::new();
        emit(
            &mut events,
            Event::RetryRollback { attempt: self.attempt + 2, max: MAX_RETRIES },
        );
        assert(event_views(events@) =~= seq![
            Event::RetryRollback { attempt: (self@.attempt + 2) as u32, max: MAX_RETRIES },
        ]);
        self.retry(events)
    }

    /// Takes what came of the last piece of work, and says what is to be done
    /// next.
    #[verifier::rlimit(60)]
    #[verifier::spinoff_prover]
    pub fn step(
        &mut self,
        happened: Happened,
        around: &Surroundings<'_>,
        shared: &mut SharedCatalog,
        limits: &mut ContextLimits,
    ) -> (r: RequestStep)
        requires
            old(self)@.attempt < MAX_RETRIES,
        ensures
            ({
                let o = outcome(old(self)@, happened, *around, old(shared)@.specs);
                &&& final(self)@ == o.state
                &&& event_views(r.events@) == o.events
                &&& r.action@ == o.action
            }),
            final(shared)@ == shared_after(old(self)@, happened, old(shared)@),
            final(limits)@ == limits_after_step(happened, old(limits)@),
            (match happened {
                Happened::Catalog(Some(_)) => filed_as(
                    r.filed,
                    final(shared)@,
                    old(self)@.token,
                    around.now_rfc3339@,
                ),
                _ => r.filed is None,
            }),
            final(self)@.attempt < MAX_RETRIES,
    {
        match happened {
            Happened::Ready => quiet(Action::GetToken),
            Happened::Token(Err(message)) => quiet(Action::Fail(message)),
            Happened::Token(Ok(token)) => {
                self.token = token;
                match &self.base {
                    None => quiet(Action::ResolveBase { token: self.token.clone() }),
                    Some(_) => self.route(around, shared),
                }
            },
            Happened::Base(base) => {
                self.base = Some(base);
                self.route(around, shared)
            },
            Happened::Catalog(fetched) => {
                let (endpoint, filed) = endpoint_for_model(
                    shared,
                    limits,
                    self.model.as_str(),
                    fetched,
                    self.token.as_str(),
                    around.now_rfc3339,
                );
                self.endpoint = endpoint;
                let mut r = quiet(Action::Send(self.build(around, shared)));
                r.filed = filed;
                r
            },
            Happened::SendFailed { message, chain, transient } => {
                let error = in_small_letters(chain.as_str());
                let may_pass = is_retryable_error(error.as_str(), transient);
                self.send_failed(message.as_str(), may_pass)
            },
            Happened::Answered { status, status_text, body, transient } => {
                let error = in_small_letters(
                    api_failure_text(status_text.as_str(), body.as_str()).as_str(),
                );
                let may_pass = is_retryable_error(error.as_str(), transient);
                self.answered(
                    around,
                    shared,
                    status,
                    status_text.as_str(),
                    body.as_str(),
                    may_pass,
                )
            },
            Happened::Rediscovered { base, status_text, body, transient } => {
                let error = in_small_letters(
                    api_failure_text(status_text.as_str(), body.as_str()).as_str(),
                );
                let may_pass = is_retryable_error(error.as_str(), transient);
                self.rediscovered(around, base, status_text.as_str(), body.as_str(), may_pass)
            },
            Happened::Streamed => quiet(Action::Finish),
            Happened::StreamFailed { message, chain, transient, saw_output } => {
                let error = in_small_letters(chain.as_str());
                let may_pass = is_retryable_error(error.as_str(), transient);
                self.stream_failed(message, may_pass, saw_output)
            },
        }
    }
}

/// An attempt begins only by a step that tells the consumer and waits, and there
/// are three attempts at most: no step goes beyond the third.
pub proof fn law_three_attempts(
    st: RequestView,
    happened: Happened,
    around: Surroundings<'_>,
    specs: Map<Seq<char>, SpecView>,
)
    requires
        st.attempt < MAX_RETRIES,
    ensures
        ({
            let o = outcome(st, happened, around, specs);
            &&& o.state.attempt < MAX_RETRIES
            &&& o.state.attempt == st.attempt || (o.state.attempt == st.attempt + 1 && o.action == (
            ActionView::Sleep { attempt: o.state.attempt }))
        }),
{
}

/// In the last attempt nothing is tried again: whatever happens, no step waits
/// for another one.
pub proof fn law_last_attempt_is_final(
    st: RequestView,
    happened: Happened,
    around: Surroundings<'_>,
    specs: Map<Seq<char>, SpecView>,
)
    requires
        st.attempt + 1 == MAX_RETRIES,
    ensures
        !(outcome(st, happened, around, specs).action is Sleep),
        happened is SendFailed || happened is StreamFailed || happened is Rediscovered ==> outcome(
            st,
            happened,
            around,
            specs,
        ).action is Fail,
{
}

/// A token that is not accepted is reported at once, in whatever attempt: trying
/// again would only send the same token.
pub proof fn law_refused_token_is_final(
    st: RequestView,
    around: Surroundings<'_>,
    specs: Map<Seq<char>, SpecView>,
    status_text: Seq<char>,
    body: Seq<char>,
    may_pass: bool,
)
    ensures
        after_answer(st, around, specs, 401, status_text, body, may_pass) == fails(
            st,
            auth_failure(status_text, body),
        ),
{
}

/// What a consumer got of a failed stream is taken back before the next attempt
/// is announced.
pub proof fn law_partial_output_is_taken_back(
    st: RequestView,
    message: Seq<char>,
    may_pass: bool,
)
    ensures
        ({
            let o = after_stream_failure(st, message, may_pass, true);
            o.action is Sleep ==> o.events.len() == 2 && o.events[0] is RetryRollback
                && o.events[1] is ConnectionPhase
        }),
{
}

/// A stale route is tried again with what the catalog says now: the model is
/// forgotten, so the next attempt fetches the catalog before it sends.
pub proof fn law_stale_route_is_asked_again(
    st: RequestView,
    around: Surroundings<'_>,
    specs: Map<Seq<char>, SpecView>,
    status_text: Seq<char>,
    body: Seq<char>,
    may_pass: bool,
    token: Seq<char>,
)
    requires
        is_stale_route(400, body),
        may_retry(st),
        specs.contains_key(st.model),
    ensures
        ({
            let o = after_answer(st, around, specs, 400, status_text, body, may_pass);
            let after = specs_after_answer(st, specs, 400, body);
            &&& o.action is Sleep
            &&& routes(RequestView { token, ..o.state }, around, after).action == (
            ActionView::FetchCatalog { token })
        }),
{
}

/// A request never asks for more output than the limit, nor for more than the
/// model's own cap, and asks for all that both allow.
pub proof fn law_output_stays_below_the_cap(specs: Map<Seq<char>, SpecView>, model: Seq<char>)
    ensures
        output_limit(specs, model) <= MAX_TOKENS,
        specs.contains_key(model) && specs[model].max_output_tokens is Some ==> output_limit(
            specs,
            model,
        ) <= specs[model].max_output_tokens->0,
        output_limit(specs, model) == MAX_TOKENS || (specs.contains_key(model)
            && specs[model].max_output_tokens == Some(output_limit(specs, model) as usize)),
{
}

} // verus!
