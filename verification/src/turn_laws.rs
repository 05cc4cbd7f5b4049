//! What holds of every turn: where its requests go, what they say, and when it is
//! tried again.

use crate::catalog::{specs_of, SpecView};
use crate::copilot_catalog::CopilotEndpoint;
use crate::json::{field, json_views, JsonView};
use crate::message::{ConnectionPhase, Event, EventView};
use crate::provider::{value_option, SharedView};
use crate::request_laws::{
    law_chat_body_holds_the_turn, law_messages_body_holds_the_turn,
    law_responses_body_holds_the_turn,
};
use crate::startup::usable_of;
use crate::stream_request::{
    outcome, output_limit, request_headers, request_of, shared_after, ActionView, Happened,
    HttpView, RequestView, Surroundings,
};
use crate::text::{ascii_lowered, begins, lowered, occurs, trimmed};
use vstd::prelude::*;

verus! {

/// The value of the first header with a name, from `from` on.
pub open spec fn header_from(
    headers: Seq<(Seq<char>, Seq<char>)>,
    name: Seq<char>,
    from: int,
) -> Option<Seq<char>>
    decreases headers.len() - from,
{
    if from < 0 || from >= headers.len() {
        None
    } else if headers[from].0 == name {
        Some(headers[from].1)
    } else {
        header_from(headers, name, from + 1)
    }
}

/// The value of a header.
pub open spec fn header(headers: Seq<(Seq<char>, Seq<char>)>, name: Seq<char>) -> Option<Seq<char>> {
    header_from(headers, name, 0)
}

proof fn lemma_header_at(
    headers: Seq<(Seq<char>, Seq<char>)>,
    name: Seq<char>,
    from: int,
    i: int,
)
    requires
        0 <= from <= i < headers.len(),
        headers[i].0 == name,
        forall|j: int| from <= j < i ==> (#[trigger] headers[j]).0 != name,
    ensures
        header_from(headers, name, from) == Some(headers[i].1),
    decreases i - from,
{
    if from < i {
        lemma_header_at(headers, name, from + 1, i);
    }
}

proof fn lemma_header_absent(headers: Seq<(Seq<char>, Seq<char>)>, name: Seq<char>, from: int)
    requires
        0 <= from,
        forall|j: int| from <= j < headers.len() ==> (#[trigger] headers[j]).0 != name,
    ensures
        header_from(headers, name, from) is None,
    decreases headers.len() - from,
{
    if from < headers.len() {
        lemma_header_absent(headers, name, from + 1);
    }
}

/// A request is signed with its token, says who began the turn, carries the ids of
/// the request and of the editor, announces images exactly where there are some,
/// and asks for interleaved thinking exactly on the Messages route.
pub proof fn law_headers_say_whose_turn_it_is(
    token: Seq<char>,
    user_initiated: bool,
    request_id: Seq<char>,
    editor_version: Seq<char>,
    has_images: bool,
    endpoint: CopilotEndpoint,
)
    ensures
        ({
            let headers = request_headers(
                token,
                user_initiated,
                request_id,
                editor_version,
                has_images,
                endpoint,
            );
            &&& header(headers, "Authorization"@) == Some("Bearer "@ + token)
            &&& header(headers, "Content-Type"@) == Some("application/json"@)
            &&& user_initiated ==> header(headers, "X-Initiator"@) == Some("user"@)
            &&& !user_initiated ==> header(headers, "X-Initiator"@) == Some("agent"@)
            &&& header(headers, "X-Request-Id"@) == Some(request_id)
            &&& header(headers, "X-GitHub-Api-Version"@) == Some("2026-06-01"@)
            &&& header(headers, "User-Agent"@) == Some(editor_version)
            &&& header(headers, "Editor-Version"@) == Some(editor_version)
            &&& header(headers, "Openai-Intent"@) == Some("conversation-edits"@)
            &&& has_images ==> header(headers, "Copilot-Vision-Request"@) == Some("true"@)
            &&& !has_images ==> header(headers, "Copilot-Vision-Request"@) is None
            &&& endpoint is Messages ==> header(headers, "anthropic-beta"@) == Some(
                "interleaved-thinking-2025-05-14"@,
            )
            &&& !(endpoint is Messages) ==> header(headers, "anthropic-beta"@) is None
        }),
{
    reveal_strlit("Authorization");
    reveal_strlit("Content-Type");
    reveal_strlit("X-Initiator");
    reveal_strlit("X-Request-Id");
    reveal_strlit("X-GitHub-Api-Version");
    reveal_strlit("User-Agent");
    reveal_strlit("Editor-Version");
    reveal_strlit("Openai-Intent");
    reveal_strlit("Copilot-Vision-Request");
    reveal_strlit("anthropic-beta");
    assert("Authorization"@.len() == 13 && "Authorization"@[0] == 'A');
    assert("Content-Type"@.len() == 12 && "Content-Type"@[0] == 'C');
    assert("X-Initiator"@.len() == 11);
    assert("X-Request-Id"@.len() == 12 && "X-Request-Id"@[0] == 'X');
    assert("X-GitHub-Api-Version"@.len() == 20);
    assert("User-Agent"@.len() == 10);
    assert("Editor-Version"@.len() == 14 && "Editor-Version"@[0] == 'E');
    assert("Openai-Intent"@.len() == 13 && "Openai-Intent"@[0] == 'O');
    assert("Copilot-Vision-Request"@.len() == 22);
    assert("anthropic-beta"@.len() == 14 && "anthropic-beta"@[0] == 'a');
    let headers = request_headers(
        token,
        user_initiated,
        request_id,
        editor_version,
        has_images,
        endpoint,
    );
    assert(headers[0].0 == "Authorization"@ && headers[1].0 == "Content-Type"@ && headers[2].0
        == "X-Initiator"@ && headers[3].0 == "X-Request-Id"@ && headers[4].0
        == "X-GitHub-Api-Version"@ && headers[5].0 == "User-Agent"@ && headers[6].0
        == "Editor-Version"@ && headers[7].0 == "Openai-Intent"@);
    lemma_header_at(headers, "Authorization"@, 0, 0);
    lemma_header_at(headers, "Content-Type"@, 0, 1);
    lemma_header_at(headers, "X-Initiator"@, 0, 2);
    lemma_header_at(headers, "X-Request-Id"@, 0, 3);
    lemma_header_at(headers, "X-GitHub-Api-Version"@, 0, 4);
    lemma_header_at(headers, "User-Agent"@, 0, 5);
    lemma_header_at(headers, "Editor-Version"@, 0, 6);
    lemma_header_at(headers, "Openai-Intent"@, 0, 7);
    let last = headers.len() - 1;
    if has_images {
        lemma_header_at(headers, "Copilot-Vision-Request"@, 0, 8);
    } else {
        lemma_header_absent(headers, "Copilot-Vision-Request"@, 0);
    }
    if endpoint is Messages {
        lemma_header_at(headers, "anthropic-beta"@, 0, last);
    } else {
        lemma_header_absent(headers, "anthropic-beta"@, 0);
    }
}

/// What a request says of a turn that is in the state `st`: it goes to the path of
/// its route, signed with its token, and its body holds the turn in the shape of
/// that route.
pub open spec fn says_the_turn(http: HttpView, st: RequestView, around: Surroundings<'_>) -> bool {
    let base = match st.base {
        Some(base) => base,
        None => seq![],
    };
    let payload = *around.payload;
    &&& header(http.headers, "Authorization"@) == Some("Bearer "@ + st.token)
    &&& header(http.headers, "X-Initiator"@) == Some(
        if st.user_initiated {
            "user"@
        } else {
            "agent"@
        },
    )
    &&& header(http.headers, "X-Request-Id"@) == Some(around.ids.request_id@)
    &&& header(http.headers, "Editor-Version"@) == Some(around.ids.editor_version@)
    &&& header(http.headers, "Copilot-Vision-Request"@) is Some <==> st.has_images
    &&& header(http.headers, "anthropic-beta"@) is Some <==> st.endpoint is Messages
    &&& http.fresh_connection <==> st.attempt > 0
    &&& field(http.body, "model"@) == Some(JsonView::Str(st.model))
    &&& field(http.body, "stream"@) == Some(JsonView::Bool(true))
    &&& match st.endpoint {
        CopilotEndpoint::Messages => {
            &&& http.url == base + "/v1/messages"@
            &&& field(http.body, "messages"@) == Some(
                JsonView::Array(json_views(payload.messages@)),
            )
            &&& field(http.body, "system"@) == value_option(payload.messages_system)
            &&& payload.messages_tools@.len() > 0 ==> field(http.body, "tools"@) == Some(
                JsonView::Array(json_views(payload.messages_tools@)),
            )
        },
        CopilotEndpoint::Responses => {
            &&& http.url == base + "/responses"@
            &&& field(http.body, "input"@) == Some(
                JsonView::Array(json_views(payload.responses_input@)),
            )
            &&& field(http.body, "instructions"@) == Some(JsonView::Str(payload.system@))
            &&& payload.responses_tools@.len() > 0 ==> field(http.body, "tools"@) == Some(
                JsonView::Array(json_views(payload.responses_tools@)),
            )
        },
        CopilotEndpoint::ChatCompletions => {
            &&& http.url == base + "/chat/completions"@
            &&& field(http.body, "messages"@) == Some(
                JsonView::Array(json_views(payload.chat_messages@)),
            )
            &&& payload.chat_tools@.len() > 0 ==> field(http.body, "tools"@) == Some(
                JsonView::Array(json_views(payload.chat_tools@)),
            )
        },
    }
}

/// The limit of the output that a request body asks for.
pub open spec fn asked_limit(
    body: JsonView,
    endpoint: CopilotEndpoint,
    model: Seq<char>,
) -> Option<JsonView> {
    match endpoint {
        CopilotEndpoint::Messages => field(body, "max_tokens"@),
        CopilotEndpoint::Responses => field(body, "max_output_tokens"@),
        CopilotEndpoint::ChatCompletions => if begins(
            ascii_lowered(trimmed(model)),
            "gpt-5"@,
        ) {
            field(body, "max_completion_tokens"@)
        } else {
            field(body, "max_tokens"@)
        },
    }
}

/// The effort that a request body asks for.
pub open spec fn asked_effort(body: JsonView, endpoint: CopilotEndpoint) -> Option<JsonView> {
    match endpoint {
        CopilotEndpoint::Messages => match field(body, "output_config"@) {
            Some(config) => field(config, "effort"@),
            None => None,
        },
        CopilotEndpoint::Responses => match field(body, "reasoning"@) {
            Some(reasoning) => field(reasoning, "effort"@),
            None => None,
        },
        CopilotEndpoint::ChatCompletions => field(body, "reasoning_effort"@),
    }
}

/// The request that a state sends says the turn, asks for as much output as the
/// model and the limit both allow, and for the session's effort exactly where the
/// catalog says that the model takes one.
pub proof fn law_request_says_the_turn(
    st: RequestView,
    around: Surroundings<'_>,
    specs: Map<Seq<char>, SpecView>,
)
    ensures
        ({
            let http = request_of(st, around, specs);
            &&& says_the_turn(http, st, around)
            &&& asked_limit(http.body, st.endpoint, st.model) matches Some(JsonView::UInt(n))
            &&& n <= 32_768
            &&& specs.contains_key(st.model) ==> (match specs[st.model].max_output_tokens {
                Some(cap) => n <= cap && (n == cap || n == 32_768),
                None => n == 32_768,
            })
            &&& !specs.contains_key(st.model) ==> n == 32_768 && asked_effort(
                http.body,
                st.endpoint,
            ) is None
            &&& specs.contains_key(st.model) && specs[st.model].reasoning_efforts.len() == 0
                ==> asked_effort(http.body, st.endpoint) is None
            &&& specs.contains_key(st.model) && specs[st.model].reasoning_efforts.len() > 0
                ==> asked_effort(http.body, st.endpoint) == (match around.provider@.effort {
                Some(effort) => Some(JsonView::Str(effort)),
                None => None,
            })
        }),
{
    let http = request_of(st, around, specs);
    let payload = *around.payload;
    let limit = output_limit(specs, st.model) as u32;
    let effort = crate::provider::effort_to_send(around.provider@, specs, st.model);
    law_headers_say_whose_turn_it_is(
        st.token,
        st.user_initiated,
        around.ids.request_id@,
        around.ids.editor_version@,
        st.has_images,
        st.endpoint,
    );
    law_messages_body_holds_the_turn(
        st.model,
        value_option(payload.messages_system),
        json_views(payload.messages@),
        json_views(payload.messages_tools@),
        limit,
        effort,
        "model"@,
    );
    law_responses_body_holds_the_turn(
        st.model,
        payload.system@,
        json_views(payload.responses_input@),
        json_views(payload.responses_tools@),
        limit,
        effort,
        "model"@,
    );
    law_chat_body_holds_the_turn(
        st.model,
        json_views(payload.chat_messages@),
        json_views(payload.chat_tools@),
        limit,
        effort,
        "model"@,
    );
}

/// Whatever happens, a request that is sent says the turn that the state then
/// describes, and a step never changes which turn that is.
pub proof fn law_sent_requests_say_the_turn(
    st: RequestView,
    happened: Happened,
    around: Surroundings<'_>,
    specs: Map<Seq<char>, SpecView>,
)
    ensures
        ({
            let o = outcome(st, happened, around, specs);
            &&& o.state.model == st.model
            &&& o.state.user_initiated == st.user_initiated
            &&& o.state.has_images == st.has_images
            &&& o.action matches ActionView::Send(http) ==> says_the_turn(http, o.state, around)
        }),
{
    let o = outcome(st, happened, around, specs);
    law_request_says_the_turn(o.state, around, specs);
    match happened {
        Happened::Catalog(Some(fetched)) => {
            let models = usable_of(fetched@);
            law_request_says_the_turn(o.state, around, specs_of(models, models.len() as int));
        },
        _ => {},
    }
}

/// Every attempt asks the catalog for the route of its model: with a token and a
/// base at hand it is sent to the endpoint that the catalog states now, and where
/// the catalog does not describe the model, the catalog is fetched first. A base
/// that is not known yet is looked up with the token.
pub proof fn law_every_attempt_asks_the_catalog(
    st: RequestView,
    happened: Happened,
    around: Surroundings<'_>,
    specs: Map<Seq<char>, SpecView>,
)
    requires
        happened matches Happened::Token(Ok(_)) || happened is Base,
    ensures
        ({
            let o = outcome(st, happened, around, specs);
            let base = match happened {
                Happened::Base(base) => Some(base@),
                _ => st.base,
            };
            let token = match happened {
                Happened::Token(Ok(token)) => token@,
                _ => st.token,
            };
            &&& o.state.attempt == st.attempt
            &&& o.state.token == token
            &&& o.state.base == base
            &&& base is None ==> o.action == (ActionView::ResolveBase { token })
            &&& base is Some && specs.contains_key(st.model) ==> {
                &&& o.action is Send
                &&& o.state.endpoint == specs[st.model].endpoint
                &&& says_the_turn(o.action->Send_0, o.state, around)
            }
            &&& base is Some && !specs.contains_key(st.model) ==> o.action == (
            ActionView::FetchCatalog { token })
        }),
{
    law_sent_requests_say_the_turn(st, happened, around, specs);
}

/// A catalog that was fetched for the route decides it: the request goes to what
/// the last usable entry for the model states, and to Chat Completions where there
/// is none or the fetch failed.
pub proof fn law_fetched_catalog_decides_the_route(
    st: RequestView,
    fetched: Option<Vec<crate::copilot_catalog::CopilotModelInfo>>,
    around: Surroundings<'_>,
    specs: Map<Seq<char>, SpecView>,
)
    ensures
        ({
            let o = outcome(st, Happened::Catalog(fetched), around, specs);
            &&& o.action matches ActionView::Send(http)
            &&& says_the_turn(http, o.state, around)
            &&& o.state == (RequestView { endpoint: o.state.endpoint, ..st })
            &&& fetched is None ==> o.state.endpoint is ChatCompletions
            &&& fetched matches Some(fetched) ==> {
                let models = usable_of(fetched@);
                &&& (forall|i: int|
                    0 <= i < models.len() ==> (#[trigger] models[i]).id@ != st.model)
                    ==> o.state.endpoint is ChatCompletions
                &&& forall|i: int|
                    0 <= i < models.len() && (#[trigger] models[i]).id@ == st.model && (forall|
                        j: int,
                    |
                        i < j < models.len() ==> (#[trigger] models[j]).id@ != st.model)
                        ==> o.state.endpoint == crate::catalog::spec_of(models[i]).endpoint
            }
        }),
{
    law_sent_requests_say_the_turn(st, Happened::Catalog(fetched), around, specs);
    match fetched {
        Some(fetched) => {
            let models = usable_of(fetched@);
            let n = models.len() as int;
            if forall|i: int| 0 <= i < models.len() ==> (#[trigger] models[i]).id@ != st.model {
                lemma_specs_lack(models, st.model, n);
            }
            assert forall|i: int|
                0 <= i < models.len() && (#[trigger] models[i]).id@ == st.model && (forall|j: int|
                    i < j < models.len() ==> (#[trigger] models[j]).id@ != st.model) implies outcome(
                st,
                Happened::Catalog(Some(fetched)),
                around,
                specs,
            ).state.endpoint == crate::catalog::spec_of(models[i]).endpoint by {
                lemma_specs_last(models, st.model, i, n);
            }
        },
        None => {},
    }
}

proof fn lemma_specs_lack(
    models: Seq<crate::copilot_catalog::CopilotModelInfo>,
    model: Seq<char>,
    n: int,
)
    requires
        0 <= n <= models.len(),
        forall|i: int| 0 <= i < n ==> (#[trigger] models[i]).id@ != model,
    ensures
        !specs_of(models, n).contains_key(model),
    decreases n,
{
    if n > 0 {
        lemma_specs_lack(models, model, n - 1);
        assert(models[n - 1].id@ != model);
    }
}

proof fn lemma_specs_last(
    models: Seq<crate::copilot_catalog::CopilotModelInfo>,
    model: Seq<char>,
    i: int,
    n: int,
)
    requires
        0 <= i < n <= models.len(),
        models[i].id@ == model,
        forall|j: int| i < j < n ==> (#[trigger] models[j]).id@ != model,
    ensures
        specs_of(models, n).contains_key(model),
        specs_of(models, n)[model] == crate::catalog::spec_of(models[i]),
    decreases n,
{
    if i < n - 1 {
        assert(models[n - 1].id@ != model);
        lemma_specs_last(models, model, i, n - 1);
    }
}

/// An answer that says that the model was sent to an endpoint that it does not
/// serve is tried again, and the next attempt does not send before it has fetched
/// the catalog, whatever the catalog said before.
pub proof fn law_stale_route_fetches_the_catalog(
    st: RequestView,
    status_text: String,
    body: String,
    transient: bool,
    around: Surroundings<'_>,
    shared: SharedView,
    token: String,
    next: Surroundings<'_>,
)
    requires
        occurs(body@, "unsupported_api_for_model"@),
        st.attempt + 1 < 3,
        st.base is Some,
        shared.specs.contains_key(st.model),
    ensures
        ({
            let refused = Happened::Answered { status: 400, status_text, body, transient };
            let o = outcome(st, refused, around, shared.specs);
            let after = shared_after(st, refused, shared);
            &&& o.action == (ActionView::Sleep { attempt: (st.attempt + 1) as u32 })
            &&& outcome(o.state, Happened::Ready, around, after.specs).action is GetToken
            &&& outcome(o.state, Happened::Token(Ok(token)), next, after.specs).action == (
            ActionView::FetchCatalog { token: token@ })
        }),
{
}

/// What an answer teaches of the catalog: a stale route forgets that model and
/// nothing else, and no other answer, failure or wait changes anything.
pub proof fn law_answers_forget_only_stale_routes(
    st: RequestView,
    happened: Happened,
    shared: SharedView,
    other: Seq<char>,
)
    requires
        !(happened matches Happened::Catalog(Some(_))),
    ensures
        ({
            let after = shared_after(st, happened, shared);
            &&& after.fetched_models == shared.fetched_models
            &&& after.account_type == shared.account_type
            &&& after.source == shared.source
            &&& other != st.model && shared.specs.contains_key(other) ==> after.specs.contains_key(
                other,
            ) && after.specs[other] == shared.specs[other]
            &&& shared.specs.contains_key(st.model) && !after.specs.contains_key(st.model) ==> (
            happened matches Happened::Answered { status, status_text, body, transient } && status
                == 400 && occurs(body@, "unsupported_api_for_model"@))
        }),
{
}

/// Whether an error's text, in small letters, names a fault that may pass.
pub open spec fn names_a_passing_fault(text: Seq<char>) -> bool {
    ||| occurs(text, "500 internal server error"@)
    ||| occurs(text, "502 bad gateway"@)
    ||| occurs(text, "503 service unavailable"@)
    ||| occurs(text, "504 gateway timeout"@)
    ||| occurs(text, "429 too many requests"@)
    ||| occurs(text, "overloaded"@)
    ||| occurs(text, "rate limit"@)
    ||| occurs(text, "rate_limit"@)
    ||| occurs(text, "stream error"@)
    ||| occurs(text, "stream read timeout"@)
}

/// What the consumer is told of the next attempt.
pub open spec fn announces(event: EventView, attempt: int) -> bool {
    event == (Event::<Seq<char>>::ConnectionPhase {
        phase: ConnectionPhase::Retrying { attempt: attempt as u32, max: 3 },
    })
}

/// A request that could not be sent is tried again exactly where the fault may
/// pass and an attempt is left: the next attempt is announced and waited for. Else
/// its message is reported.
pub proof fn law_failed_sends_are_tried_again(
    st: RequestView,
    message: String,
    chain: String,
    transient: bool,
    around: Surroundings<'_>,
    specs: Map<Seq<char>, SpecView>,
)
    requires
        st.attempt < 3,
    ensures
        ({
            let o = outcome(st, Happened::SendFailed { message, chain, transient }, around, specs);
            if (transient || names_a_passing_fault(lowered(chain@))) && st.attempt < 2 {
                &&& o.action == (ActionView::Sleep { attempt: (st.attempt + 1) as u32 })
                &&& o.state == (RequestView { attempt: (st.attempt + 1) as u32, ..st })
                &&& o.events.len() == 1
                &&& announces(o.events[0], st.attempt + 2)
            } else {
                &&& o.action == ActionView::Fail("Copilot API request failed: "@ + message@)
                &&& o.events.len() == 0
            }
        }),
{
}

/// A stream that broke is tried again exactly where the fault may pass and an
/// attempt is left. What the consumer got of it is taken back before the next
/// attempt is announced, and nothing is taken back where it got nothing. Else the
/// message is reported as it is.
pub proof fn law_broken_streams_are_tried_again(
    st: RequestView,
    message: String,
    chain: String,
    transient: bool,
    saw_output: bool,
    around: Surroundings<'_>,
    specs: Map<Seq<char>, SpecView>,
)
    requires
        st.attempt < 3,
    ensures
        ({
            let o = outcome(
                st,
                Happened::StreamFailed { message, chain, transient, saw_output },
                around,
                specs,
            );
            if (transient || names_a_passing_fault(lowered(chain@))) && st.attempt < 2 {
                &&& o.action == (ActionView::Sleep { attempt: (st.attempt + 1) as u32 })
                &&& o.state == (RequestView { attempt: (st.attempt + 1) as u32, ..st })
                &&& saw_output ==> o.events.len() == 2 && o.events[0] == (Event::<
                    Seq<char>,
                >::RetryRollback { attempt: (st.attempt + 2) as u32, max: 3 }) && announces(
                    o.events[1],
                    st.attempt + 2,
                )
                &&& !saw_output ==> o.events.len() == 1 && announces(o.events[0], st.attempt + 2)
            } else {
                &&& o.action == ActionView::Fail(message@)
                &&& o.events.len() == 0
            }
        }),
{
}

/// What each answer leads to: a success is streamed on the route that it was sent
/// to; a token that is not accepted is reported at once; a 403 has the seat looked
/// up again while an attempt is left; every other refusal is tried again exactly
/// where the fault may pass and an attempt is left, and else reported with its
/// status and its body.
pub proof fn law_answers_are_followed(
    st: RequestView,
    status: u16,
    status_text: String,
    body: String,
    transient: bool,
    around: Surroundings<'_>,
    specs: Map<Seq<char>, SpecView>,
)
    requires
        st.attempt < 3,
    ensures
        ({
            let o = outcome(
                st,
                Happened::Answered { status, status_text, body, transient },
                around,
                specs,
            );
            let text = "Copilot API error (HTTP "@ + status_text@ + "): "@ + body@;
            let passes = transient || names_a_passing_fault(lowered(text));
            let stale = status == 400 && occurs(body@, "unsupported_api_for_model"@)
                && specs.contains_key(st.model);
            &&& 200 <= status < 300 ==> o.action == (ActionView::Stream { endpoint: st.endpoint })
                && o.state == st && o.events == seq![
                Event::<Seq<char>>::ConnectionType {
                    connection: "copilot-api ("@ + st.model + ")"@,
                },
            ]
            &&& status == 401 ==> o.action == ActionView::Fail(
                "Copilot authentication failed (HTTP "@ + status_text@
                    + "). Run `jcode login --provider copilot` to re-authenticate: "@ + body@,
            )
            &&& status == 403 && st.attempt < 2 ==> o.action == (ActionView::Rediscover {
                token: st.token,
                base: match st.base {
                    Some(base) => base,
                    None => seq![],
                },
            }) && o.state == st
            &&& !(200 <= status < 300) && status != 401 && !(status == 403 && st.attempt < 2) ==> if (
            passes || stale) && st.attempt < 2 {
                &&& o.action == (ActionView::Sleep { attempt: (st.attempt + 1) as u32 })
                &&& o.state == (RequestView { attempt: (st.attempt + 1) as u32, ..st })
                &&& o.events.len() == 1
                &&& announces(o.events[0], st.attempt + 2)
            } else {
                &&& o.action matches ActionView::Fail(message)
                &&& begins(message, text)
                &&& o.events.len() == 0
            }
        }),
{
    let o = outcome(
        st,
        Happened::Answered { status, status_text, body, transient },
        around,
        specs,
    );
    let text = "Copilot API error (HTTP "@ + status_text@ + "): "@ + body@;
    match o.action {
        ActionView::Fail(message) => {
            lemma_refusal_begins(status, status_text@, body@, around);
        },
        _ => {},
    }
}

proof fn lemma_refusal_begins(
    status: u16,
    status_text: Seq<char>,
    body: Seq<char>,
    around: Surroundings<'_>,
)
    ensures
        begins(
            crate::stream_request::api_failure(
                status_text,
                crate::errors::annotated(
                    status,
                    body,
                    around.deployment@,
                    around.app.client_id@,
                    around.app.client_id_env@,
                ),
            ),
            "Copilot API error (HTTP "@ + status_text + "): "@ + body,
        ),
{
    let noted = crate::errors::annotated(
        status,
        body,
        around.deployment@,
        around.app.client_id@,
        around.app.client_id_env@,
    );
    let whole = crate::stream_request::api_failure(status_text, noted);
    let text = "Copilot API error (HTTP "@ + status_text + "): "@ + body;
    crate::errors::law_annotation_keeps_the_body(
        status,
        body,
        around.deployment@,
        around.app.client_id@,
        around.app.client_id_env@,
    );
    let front = "Copilot API error (HTTP "@ + status_text + "): "@;
    assert(whole =~= front + noted);
    assert(noted.subrange(0, body.len() as int) == body);
    assert forall|i: int| 0 <= i < body.len() implies noted[i] == body[i] by {
        assert(noted.subrange(0, body.len() as int)[i] == body[i]);
    }
    assert(whole.subrange(0, text.len() as int) =~= text);
}

/// A seat that moved is asked again at its new base; one that did not move, or was
/// not found, is refused like any 403.
pub proof fn law_moved_seat_is_asked_at_its_base(
    st: RequestView,
    base: Option<String>,
    status_text: String,
    body: String,
    transient: bool,
    around: Surroundings<'_>,
    specs: Map<Seq<char>, SpecView>,
)
    requires
        st.attempt < 3,
        st.base is Some,
    ensures
        ({
            let o = outcome(
                st,
                Happened::Rediscovered { base, status_text, body, transient },
                around,
                specs,
            );
            let text = "Copilot API error (HTTP "@ + status_text@ + "): "@ + body@;
            let passes = transient || names_a_passing_fault(lowered(text));
            let moved = base matches Some(base) && Some(base@) != st.base;
            if st.attempt < 2 && (moved || passes) {
                &&& o.action == (ActionView::Sleep { attempt: (st.attempt + 1) as u32 })
                &&& o.state.attempt == st.attempt + 1
                &&& o.state.base == (if moved {
                    Some(base->0@)
                } else {
                    st.base
                })
                &&& o.events.len() == 1
                &&& announces(o.events[0], st.attempt + 2)
            } else {
                &&& o.action matches ActionView::Fail(message)
                &&& begins(message, text)
            }
        }),
{
    lemma_refusal_begins(403, status_text@, body@, around);
}

/// The plain steps: a wait that is over asks for a token, a token that cannot be
/// had is reported, and a stream that was read to its end ends the turn.
pub proof fn law_plain_steps(
    st: RequestView,
    message: String,
    around: Surroundings<'_>,
    specs: Map<Seq<char>, SpecView>,
)
    ensures
        outcome(st, Happened::Ready, around, specs).action is GetToken,
        outcome(st, Happened::Ready, around, specs).state == st,
        outcome(st, Happened::Token(Err(message)), around, specs).action == ActionView::Fail(
            message@,
        ),
        outcome(st, Happened::Streamed, around, specs).action is Finish,
        outcome(st, Happened::Ready, around, specs).events.len() == 0,
        outcome(st, Happened::Streamed, around, specs).events.len() == 0,
{
}

} // verus!
