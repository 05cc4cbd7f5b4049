//! The course of a request: routing, sending, trying again.

use jcode_copilot::catalog::CatalogSpecs;
use jcode_copilot::context_limits::ContextLimits;
use jcode_copilot::copilot_catalog::CopilotEndpoint;
use jcode_copilot::copilot_enterprise::CopilotDeployment;
use jcode_copilot::errors::OauthApp;
use jcode_copilot::json::{array, Json};
use jcode_copilot::message::{ConnectionPhase, Event};
use jcode_copilot::provider::{CopilotApiProvider, SharedCatalog};
use jcode_copilot::stream_request::{
    api_failure_text, is_retryable_error, Action, Happened, HttpRequest, RequestIds, StreamRequest,
    Surroundings, TurnPayload, MAX_RETRIES,
};
use jcode_copilot::wire::read_models;

const APP: OauthApp<'static> = OauthApp {
    client_id: "id",
    client_id_env: "ENV",
};

const IDS: RequestIds<'static> = RequestIds {
    request_id: "request-1",
    editor_version: "jcode/1.0",
};

const DEPLOYMENT: CopilotDeployment = CopilotDeployment::DotCom;

fn payload() -> TurnPayload {
    TurnPayload {
        system: "sys".to_string(),
        chat_messages: vec![Json::text("chat")],
        chat_tools: Vec::new(),
        messages_system: Some(Json::text("sys")),
        messages: vec![Json::text("messages")],
        messages_tools: Vec::new(),
        responses_input: vec![Json::text("responses")],
        responses_tools: Vec::new(),
    }
}

fn provider() -> CopilotApiProvider {
    CopilotApiProvider::new("family", Some("m"), None, "s".to_string(), "c".to_string())
}

fn around<'a>(payload: &'a TurnPayload, provider: &'a CopilotApiProvider) -> Surroundings<'a> {
    Surroundings {
        payload,
        provider,
        deployment: &DEPLOYMENT,
        app: &APP,
        ids: &IDS,
        now_rfc3339: "now",
    }
}

fn catalog(endpoint: &str) -> SharedCatalog {
    let models = read_models(&format!(
        "{{\"data\":[{{\"id\":\"m\",\"supported_endpoints\":[\"{endpoint}\"],\
         \"capabilities\":{{\"limits\":{{\"max_output_tokens\":100,\"max_prompt_tokens\":9}},\
         \"supports\":{{\"tool_calls\":true}}}}}}]}}"
    ))
    .unwrap();
    let mut shared = SharedCatalog::new();
    shared.fetched_models = vec!["m".to_string()];
    shared.model_specs = CatalogSpecs::from_models(&models);
    shared
}

fn request() -> StreamRequest {
    StreamRequest::new("m".to_string(), true, false)
}

/// Brings a request to the point where it is sent.
fn sent(request: &mut StreamRequest, shared: &mut SharedCatalog) -> HttpRequest {
    let (payload, provider) = (payload(), provider());
    let around = around(&payload, &provider);
    let mut limits = ContextLimits::new();
    let step = request.step(Happened::Ready, &around, shared, &mut limits);
    assert!(matches!(step.action, Action::GetToken));
    let token = Happened::Token(Ok("token".to_string()));
    let step = request.step(token, &around, shared, &mut limits);
    assert!(matches!(step.action, Action::ResolveBase { token } if token == "token"));
    let base = Happened::Base("https://base".to_string());
    let step = request.step(base, &around, shared, &mut limits);
    match step.action {
        Action::Send(http) => http,
        other => panic!("{other:?}"),
    }
}

fn header<'a>(http: &'a HttpRequest, name: &str) -> Option<&'a str> {
    http.headers
        .iter()
        .find(|(key, _)| key == name)
        .map(|(_, value)| value.as_str())
}

#[test]
fn a_request_is_routed_by_the_catalog() {
    for (endpoint, body_key, item) in [
        ("/v1/messages", "messages", "messages"),
        ("/responses", "input", "responses"),
        ("/chat/completions", "messages", "chat"),
    ] {
        let mut request = request();
        let mut shared = catalog(endpoint);
        let http = sent(&mut request, &mut shared);
        assert_eq!(http.url, format!("https://base{endpoint}"));
        assert_eq!(
            http.body.get(body_key),
            Some(&array(vec![Json::text(item)]))
        );
        assert!(!http.fresh_connection);
        assert_eq!(header(&http, "Authorization"), Some("Bearer token"));
        assert_eq!(header(&http, "X-Initiator"), Some("user"));
        assert_eq!(header(&http, "X-Request-Id"), Some("request-1"));
        assert_eq!(header(&http, "Editor-Version"), Some("jcode/1.0"));
        assert_eq!(header(&http, "Openai-Intent"), Some("conversation-edits"));
        assert_eq!(header(&http, "X-GitHub-Api-Version"), Some("2026-06-01"));
        assert_eq!(header(&http, "Copilot-Vision-Request"), None);
        assert_eq!(
            header(&http, "anthropic-beta").is_some(),
            endpoint == "/v1/messages"
        );
    }
}

#[test]
fn the_output_stays_below_the_models_cap() {
    let http = sent(&mut request(), &mut catalog("/v1/messages"));
    assert_eq!(http.body.get("max_tokens"), Some(&Json::UInt(100)));
}

#[test]
fn images_are_announced() {
    let mut request = StreamRequest::new("m".to_string(), false, true);
    let http = sent(&mut request, &mut catalog("/v1/messages"));
    assert_eq!(header(&http, "Copilot-Vision-Request"), Some("true"));
    assert_eq!(header(&http, "X-Initiator"), Some("agent"));
}

#[test]
fn an_unknown_model_has_the_catalog_fetched() {
    let (payload, provider) = (payload(), provider());
    let around = around(&payload, &provider);
    let mut shared = SharedCatalog::new();
    let mut limits = ContextLimits::new();
    let mut request = request();
    let _ = request.step(
        Happened::Token(Ok("token".to_string())),
        &around,
        &mut shared,
        &mut limits,
    );
    let base = Happened::Base("https://base".to_string());
    let step = request.step(base, &around, &mut shared, &mut limits);
    assert!(matches!(step.action, Action::FetchCatalog { token } if token == "token"));
    let step = request.step(Happened::Catalog(None), &around, &mut shared, &mut limits);
    match step.action {
        Action::Send(http) => {
            assert_eq!(http.url, "https://base/chat/completions");
            assert_eq!(http.body.get("max_tokens"), Some(&Json::UInt(32_768)));
        }
        other => panic!("{other:?}"),
    }
    assert!(step.filed.is_none());

    let fetched = read_models(
        r#"{"data":[{"id":"m","supported_endpoints":["/responses"],"capabilities":{
            "limits":{"max_output_tokens":1,"max_prompt_tokens":2},
            "supports":{"tool_calls":true}}}]}"#,
    );
    let step = request.step(Happened::Catalog(fetched), &around, &mut shared, &mut limits);
    assert!(matches!(step.action, Action::Send(http) if http.url == "https://base/responses"));
    assert_eq!(
        shared.model_specs.endpoint_for("m"),
        CopilotEndpoint::Responses
    );
}

#[test]
fn no_token_is_final() {
    let (payload, provider) = (payload(), provider());
    let around = around(&payload, &provider);
    let step = request().step(
        Happened::Token(Err("gone".to_string())),
        &around,
        &mut SharedCatalog::new(),
        &mut ContextLimits::new(),
    );
    assert!(matches!(step.action, Action::Fail(message) if message == "gone"));
}

#[test]
fn three_attempts_are_made() {
    let mut request = request();
    for attempt in 1..MAX_RETRIES {
        let step = request.send_failed("reset", true);
        assert!(matches!(step.action, Action::Sleep { attempt: a } if a == attempt));
        assert_eq!(
            step.events,
            [Event::ConnectionPhase {
                phase: ConnectionPhase::Retrying {
                    attempt: attempt + 1,
                    max: MAX_RETRIES
                }
            }]
        );
    }
    let step = request.send_failed("reset", true);
    assert!(matches!(
        step.action,
        Action::Fail(message) if message == "Copilot API request failed: reset"
    ));
}

#[test]
fn later_attempts_use_a_fresh_connection() {
    let mut request = request();
    let mut shared = catalog("/v1/messages");
    let _ = request.send_failed("reset", true);
    let http = sent(&mut request, &mut shared);
    assert!(http.fresh_connection);
}

#[test]
fn a_success_is_streamed() {
    let (payload, provider) = (payload(), provider());
    let around = around(&payload, &provider);
    let mut shared = catalog("/responses");
    let mut limits = ContextLimits::new();
    let mut request = request();
    let _ = sent(&mut request, &mut shared);
    let step = request.answered(&around, &mut shared, 200, "200 OK", "", false);
    assert_eq!(
        step.events,
        [Event::ConnectionType {
            connection: "copilot-api (m)".to_string()
        }]
    );
    assert!(matches!(
        step.action,
        Action::Stream {
            endpoint: CopilotEndpoint::Responses
        }
    ));
    let step = request.step(Happened::Streamed, &around, &mut shared, &mut limits);
    assert!(matches!(step.action, Action::Finish));
}

#[test]
fn a_refused_token_is_final() {
    let (payload, provider) = (payload(), provider());
    let around = around(&payload, &provider);
    let step = request().answered(
        &around,
        &mut SharedCatalog::new(),
        401,
        "401 Unauthorized",
        "bad",
        true,
    );
    assert!(matches!(
        step.action,
        Action::Fail(message) if message == "Copilot authentication failed (HTTP 401 \
            Unauthorized). Run `jcode login --provider copilot` to re-authenticate: bad"
    ));
}

#[test]
fn a_stale_route_is_forgotten_and_asked_again() {
    let (payload, provider) = (payload(), provider());
    let around = around(&payload, &provider);
    let mut shared = catalog("/chat/completions");
    let mut request = request();
    let body = r#"{"error":{"code":"unsupported_api_for_model"}}"#;
    let step = request.answered(&around, &mut shared, 400, "400 Bad Request", body, false);
    assert!(matches!(step.action, Action::Sleep { attempt: 1 }));
    assert!(shared.model_specs.get("m").is_none());
    // Where nothing was forgotten, the answer stands.
    let step = request.answered(&around, &mut shared, 400, "400 Bad Request", body, false);
    assert!(matches!(step.action, Action::Fail(message)
        if message == format!("Copilot API error (HTTP 400 Bad Request): {body}")));
}

#[test]
fn a_forbidden_request_has_the_seat_looked_up_again() {
    let (payload, provider) = (payload(), provider());
    let around = around(&payload, &provider);
    let mut shared = catalog("/responses");
    let mut request = request();
    let _ = sent(&mut request, &mut shared);
    let step = request.answered(&around, &mut shared, 403, "403 Forbidden", "no", false);
    assert!(matches!(
        step.action,
        Action::Rediscover { token, base } if token == "token" && base == "https://base"
    ));
    let moved = Some("https://moved".to_string());
    let step = request.rediscovered(&around, moved, "403 Forbidden", "no", false);
    assert!(matches!(step.action, Action::Sleep { attempt: 1 }));
    assert_eq!(request.base.as_deref(), Some("https://moved"));
    let same = Some("https://moved".to_string());
    let step = request.rediscovered(&around, same, "403 Forbidden", "no", false);
    assert!(matches!(step.action, Action::Fail(message)
        if message.starts_with("Copilot API error (HTTP 403 Forbidden): no")
            && message.contains("--enterprise")));
}

#[test]
fn partial_output_is_taken_back() {
    let mut request = request();
    let step = request.stream_failed("reset".to_string(), true, true);
    assert_eq!(
        step.events[0],
        Event::RetryRollback {
            attempt: 2,
            max: MAX_RETRIES
        }
    );
    assert_eq!(step.events.len(), 2);
    let step = request.stream_failed("reset".to_string(), true, false);
    assert_eq!(step.events.len(), 1);
    let step = request.stream_failed("reset".to_string(), true, true);
    assert!(step.events.is_empty());
    assert!(matches!(step.action, Action::Fail(message) if message == "reset"));
}

#[test]
fn errors_that_may_pass_are_told_by_their_text() {
    for error in [
        "500 internal server error",
        "502 bad gateway",
        "503 service unavailable",
        "504 gateway timeout",
        "overloaded",
        "429 too many requests",
        "rate limit",
        "rate_limit",
        "stream error",
        "stream read timeout",
    ] {
        assert!(is_retryable_error(&format!("x {error} y"), false), "{error}");
    }
    assert!(!is_retryable_error("404 not found", false));
    assert!(is_retryable_error("404 not found", true));
    assert_eq!(
        api_failure_text("404 Not Found", "x"),
        "Copilot API error (HTTP 404 Not Found): x"
    );
}

#[test]
fn error_texts_are_compared_in_small_letters() {
    let (payload, provider) = (payload(), provider());
    let around = around(&payload, &provider);
    let mut shared = SharedCatalog::new();
    let mut limits = ContextLimits::new();
    let mut first = request();
    let step = first.step(
        Happened::Answered {
            status: 503,
            status_text: "503 Service Unavailable".to_string(),
            body: "x".to_string(),
            transient: false,
        },
        &around,
        &mut shared,
        &mut limits,
    );
    assert!(matches!(step.action, Action::Sleep { attempt: 1 }));
    let step = first.step(
        Happened::SendFailed {
            message: "m".to_string(),
            chain: "OVERLOADED".to_string(),
            transient: false,
        },
        &around,
        &mut shared,
        &mut limits,
    );
    assert!(matches!(step.action, Action::Sleep { attempt: 2 }));
    let step = request().step(
        Happened::StreamFailed {
            message: "Stream Error: x".to_string(),
            chain: "Stream Error: x".to_string(),
            transient: false,
            saw_output: false,
        },
        &around,
        &mut shared,
        &mut limits,
    );
    assert!(matches!(step.action, Action::Sleep { attempt: 1 }));
    let step = request().step(
        Happened::Rediscovered {
            base: None,
            status_text: "403 Forbidden".to_string(),
            body: "Rate Limit".to_string(),
            transient: false,
        },
        &around,
        &mut shared,
        &mut limits,
    );
    assert!(matches!(step.action, Action::Sleep { attempt: 1 }));
}

#[test]
fn a_cap_beyond_32_bits_leaves_the_limit() {
    for (cap, asked) in [(4_294_967_296_u64, 32_768), (4_294_967_297, 32_768), (32_767, 32_767)] {
        let models = read_models(&format!(
            "{{\"data\":[{{\"id\":\"m\",\"supported_endpoints\":[\"/v1/messages\"],\
             \"capabilities\":{{\"limits\":{{\"max_output_tokens\":{cap}}}}}}}]}}"
        ))
        .unwrap();
        let mut shared = SharedCatalog::new();
        shared.fetched_models = vec!["m".to_string()];
        shared.model_specs = CatalogSpecs::from_models(&models);
        let http = sent(&mut request(), &mut shared);
        assert_eq!(http.body.get("max_tokens"), Some(&Json::UInt(asked)));
    }
}
