//! The bodies of the three kinds of requests.

use jcode_copilot::chat_messages::{build_messages, sanitize_tool_id, TOOL_OUTPUT_MISSING_TEXT};
use jcode_copilot::chat_request::{
    add_max_token_parameter, build_request as build_chat_request, build_tools, canonical_payload,
};
use jcode_copilot::copilot_enterprise::CopilotDeployment;
use jcode_copilot::errors::{annotate, guidance_for, OauthApp};
use jcode_copilot::json::{array, object1, object2, object3, Json};
use jcode_copilot::message::{ChatMessage, ContentBlock, Role, ToolDefinition};
use jcode_copilot::messages_request::{self, build_messages_request};
use jcode_copilot::multi_provider::ActiveProvider;
use jcode_copilot::responses_request;

/// What the ids of Anthropic's models begin with: the name of their provider.
fn family() -> String {
    format!("{:?}", ActiveProvider::Claude).to_lowercase()
}

/// An id of that family.
fn family_id(rest: &str) -> String {
    family() + rest
}

fn make_msg(role: Role, blocks: Vec<ContentBlock>) -> ChatMessage {
    ChatMessage {
        role,
        content: blocks,
    }
}

fn text(text: &str) -> ContentBlock {
    ContentBlock::Text { text: text.into() }
}

fn tool_use(id: &str, name: &str, input: Json) -> ContentBlock {
    ContentBlock::ToolUse {
        id: id.into(),
        name: name.into(),
        input,
    }
}

fn tool_result(id: &str, content: &str) -> ContentBlock {
    ContentBlock::ToolResult {
        tool_use_id: id.into(),
        content: content.into(),
        is_error: None,
    }
}

fn command(text: &str) -> Json {
    object1("command", Json::text(text))
}

/// The value under a key, which must be there.
fn at<'a>(value: &'a Json, key: &str) -> &'a Json {
    value.get(key).unwrap_or_else(|| panic!("no {key}"))
}

/// An item of an array.
fn nth(value: &Json, index: usize) -> &Json {
    &value.as_array().expect("array")[index]
}

fn says<'a>(value: &'a Json, key: &str) -> &'a str {
    at(value, key).as_str().expect("text")
}

#[test]
fn build_messages_pairs_tool_use_with_tool_result() {
    let messages = vec![
        make_msg(Role::User, vec![text("hello")]),
        make_msg(
            Role::Assistant,
            vec![
                text("let me check"),
                tool_use("call_1", "bash", command("echo hi")),
            ],
        ),
        make_msg(Role::User, vec![tool_result("call_1", "hi\n")]),
    ];

    let built = build_messages("system prompt", &messages);

    assert_eq!(built.len(), 4);
    assert_eq!(says(&built[0], "role"), "system");
    assert_eq!(says(&built[1], "role"), "user");
    assert_eq!(says(&built[1], "content"), "hello");
    assert_eq!(says(&built[2], "role"), "assistant");
    assert!(at(&built[2], "tool_calls").as_array().is_some());
    assert_eq!(says(nth(at(&built[2], "tool_calls"), 0), "id"), "call_1");
    assert_eq!(says(&built[3], "role"), "tool");
    assert_eq!(says(&built[3], "tool_call_id"), "call_1");
    assert_eq!(says(&built[3], "content"), "hi\n");
    let function = at(nth(at(&built[2], "tool_calls"), 0), "function");
    assert_eq!(says(function, "name"), "bash");
    assert_eq!(says(function, "arguments"), r#"{"command":"echo hi"}"#);
}

#[test]
fn build_messages_injects_missing_tool_output() {
    let messages = vec![
        make_msg(Role::User, vec![text("go")]),
        make_msg(
            Role::Assistant,
            vec![tool_use("call_orphan", "bash", command("crash"))],
        ),
    ];

    let built = build_messages("", &messages);

    assert_eq!(built.len(), 3);
    assert_eq!(says(&built[1], "role"), "assistant");
    assert_eq!(says(&built[2], "role"), "tool");
    assert_eq!(says(&built[2], "tool_call_id"), "call_orphan");
    assert!(says(&built[2], "content").contains("missing"));
    assert!(says(&built[2], "content").contains(TOOL_OUTPUT_MISSING_TEXT));
}

#[test]
fn build_messages_handles_batch_multiple_tool_calls() {
    let messages = vec![
        make_msg(Role::User, vec![text("do things")]),
        make_msg(
            Role::Assistant,
            vec![
                tool_use("call_a", "bash", command("a")),
                tool_use("call_b", "bash", command("b")),
                tool_use("call_c", "bash", command("c")),
            ],
        ),
        make_msg(
            Role::User,
            vec![
                tool_result("call_a", "result_a"),
                tool_result("call_b", "result_b"),
                tool_result("call_c", "result_c"),
            ],
        ),
    ];

    let built = build_messages("", &messages);

    assert_eq!(says(&built[0], "role"), "user");
    assert_eq!(says(&built[1], "role"), "assistant");
    let tc = at(&built[1], "tool_calls").as_array().unwrap();
    assert_eq!(tc.len(), 3);

    assert_eq!(says(&built[2], "role"), "tool");
    assert_eq!(says(&built[2], "tool_call_id"), "call_a");
    assert_eq!(says(&built[2], "content"), "result_a");
    assert_eq!(says(&built[3], "role"), "tool");
    assert_eq!(says(&built[3], "tool_call_id"), "call_b");
    assert_eq!(says(&built[3], "content"), "result_b");
    assert_eq!(says(&built[4], "role"), "tool");
    assert_eq!(says(&built[4], "tool_call_id"), "call_c");
    assert_eq!(says(&built[4], "content"), "result_c");
}

#[test]
fn build_messages_skips_empty_user_text() {
    let messages = vec![
        make_msg(
            Role::Assistant,
            vec![tool_use("call_1", "read", object1("file", Json::text("x")))],
        ),
        make_msg(Role::User, vec![tool_result("call_1", "file content")]),
    ];

    let built = build_messages("", &messages);

    assert_eq!(built.len(), 2);
    assert_eq!(says(&built[0], "role"), "assistant");
    assert_eq!(says(&built[1], "role"), "tool");
    assert_eq!(says(&built[1], "content"), "file content");
}

#[test]
fn build_messages_sanitizes_tool_ids_with_dots() {
    let messages = vec![
        make_msg(Role::User, vec![text("hello")]),
        make_msg(
            Role::Assistant,
            vec![tool_use(
                "chatcmpl-BF2xX.tool_call.0",
                "bash",
                command("echo hi"),
            )],
        ),
        make_msg(
            Role::User,
            vec![tool_result("chatcmpl-BF2xX.tool_call.0", "hi\n")],
        ),
    ];

    let built = build_messages("", &messages);

    let sanitized_id = "chatcmpl-BF2xX_tool_call_0";
    assert_eq!(
        says(nth(at(&built[1], "tool_calls"), 0), "id"),
        sanitized_id
    );
    assert_eq!(says(&built[2], "tool_call_id"), sanitized_id);
    assert_eq!(sanitize_tool_id("a.b-c_9\u{e9}"), "a_b-c_9_");
}

#[test]
fn build_messages_sanitizes_anthropic_style_ids() {
    let messages = vec![
        make_msg(Role::User, vec![text("test")]),
        make_msg(
            Role::Assistant,
            vec![tool_use(
                "toolu_01XFDUDYJgAACzvnptvVer6u",
                "read",
                object1("file_path", Json::text("foo.rs")),
            )],
        ),
        make_msg(
            Role::User,
            vec![tool_result("toolu_01XFDUDYJgAACzvnptvVer6u", "file content")],
        ),
    ];

    let built = build_messages("", &messages);

    assert_eq!(
        says(nth(at(&built[1], "tool_calls"), 0), "id"),
        "toolu_01XFDUDYJgAACzvnptvVer6u"
    );
    assert_eq!(
        says(&built[2], "tool_call_id"),
        "toolu_01XFDUDYJgAACzvnptvVer6u"
    );
}

#[test]
fn build_messages_sanitizes_missing_tool_output_ids() {
    let messages = vec![
        make_msg(Role::User, vec![text("go")]),
        make_msg(
            Role::Assistant,
            vec![tool_use("call.with.dots.orphan", "bash", command("crash"))],
        ),
    ];

    let built = build_messages("", &messages);

    assert_eq!(
        says(nth(at(&built[1], "tool_calls"), 0), "id"),
        "call_with_dots_orphan"
    );
    assert_eq!(says(&built[2], "tool_call_id"), "call_with_dots_orphan");
}

#[test]
fn copilot_chat_messages_preserve_image_parts() {
    let messages = vec![make_msg(
        Role::User,
        vec![
            text("describe this"),
            ContentBlock::Image {
                media_type: "image/png".to_string(),
                data: "aW1hZ2U=".to_string(),
            },
        ],
    )];

    let built = build_messages("", &messages);
    assert_eq!(says(&built[0], "role"), "user");
    let content = at(&built[0], "content");
    assert_eq!(says(nth(content, 0), "type"), "text");
    assert_eq!(says(nth(content, 0), "text"), "describe this");
    assert_eq!(says(nth(content, 1), "type"), "image_url");
    assert_eq!(
        says(at(nth(content, 1), "image_url"), "url"),
        "data:image/png;base64,aW1hZ2U="
    );
}

#[test]
fn copilot_chat_messages_skip_empty_user_text() {
    let messages = vec![make_msg(Role::User, vec![text("")])];
    assert!(build_messages("", &messages).is_empty());
}

#[test]
fn copilot_chat_messages_keep_tool_results_before_mixed_user_content() {
    let messages = vec![
        make_msg(
            Role::Assistant,
            vec![tool_use("call-1", "screenshot", Json::Object(Vec::new()))],
        ),
        make_msg(
            Role::User,
            vec![
                text("look at this"),
                ContentBlock::Image {
                    media_type: "image/png".to_string(),
                    data: "aW1hZ2U=".to_string(),
                },
                tool_result("call-1", "captured"),
            ],
        ),
    ];

    let built = build_messages("", &messages);
    assert_eq!(says(&built[0], "role"), "assistant");
    assert_eq!(says(&built[1], "role"), "tool");
    assert_eq!(says(&built[2], "role"), "user");
    assert_eq!(
        says(nth(at(&built[2], "content"), 1), "type"),
        "image_url"
    );
}

#[test]
fn every_call_is_answered_once() {
    // The result comes twice; the call is answered with the first.
    let messages = vec![
        make_msg(
            Role::Assistant,
            vec![tool_use("c", "bash", command("a"))],
        ),
        make_msg(Role::User, vec![text("wait")]),
        make_msg(
            Role::User,
            vec![tool_result("c", "done"), tool_result("c", "again")],
        ),
    ];
    let built = build_messages("", &messages);
    let answers: Vec<&Json> = built
        .iter()
        .filter(|m| says(m, "role") == "tool")
        .collect();
    assert_eq!(answers.len(), 1);
    assert_eq!(says(answers[0], "tool_call_id"), "c");
    assert_eq!(says(answers[0], "content"), "done");
    assert_eq!(says(&built[0], "role"), "assistant");
}

#[test]
fn failed_tools_are_marked() {
    let messages = vec![
        make_msg(
            Role::Assistant,
            vec![tool_use("c", "bash", command("a"))],
        ),
        make_msg(
            Role::User,
            vec![ContentBlock::ToolResult {
                tool_use_id: "c".into(),
                content: "boom".into(),
                is_error: Some(true),
            }],
        ),
    ];
    let built = build_messages("", &messages);
    assert_eq!(says(&built[1], "content"), "[Error] boom");
}

#[test]
fn copilot_tool_payload_preserves_swarm_properties_and_required_fields() {
    let string = || object1("type", Json::text("string"));
    let parameters = object2(
        "properties",
        object3("action", string(), "message", string(), "label", string()),
        "required",
        array(vec![Json::text("action")]),
    );
    let tools = build_tools(&vec![ToolDefinition {
        name: "swarm".to_string(),
        description: "Coordinate agents".to_string(),
        input_schema: parameters,
    }]);
    assert_eq!(says(&tools[0], "type"), "function");
    let function = at(&tools[0], "function");
    assert_eq!(says(function, "name"), "swarm");
    assert_eq!(says(function, "description"), "Coordinate agents");
    let parameters = at(function, "parameters");
    assert!(at(at(parameters, "properties"), "action").is_object());
    assert!(at(at(parameters, "properties"), "message").is_object());
    assert!(at(at(parameters, "properties"), "label").is_object());
    assert_eq!(
        at(parameters, "required"),
        &array(vec![Json::text("action")])
    );
}

#[test]
fn chat_requests_hold_tools_only_where_there_are_some() {
    let body = build_chat_request(
        "gpt-5.4",
        &vec![Json::Null],
        &Vec::new(),
        4096,
        Some("high"),
    );
    assert_eq!(says(&body, "model"), "gpt-5.4");
    assert_eq!(at(&body, "max_completion_tokens"), &Json::UInt(4096));
    assert_eq!(says(&body, "reasoning_effort"), "high");
    assert_eq!(at(&body, "stream"), &Json::Bool(true));
    assert!(body.get("tools").is_none());
    let body = build_chat_request("gpt-4o", &Vec::new(), &vec![Json::Null], 7, None);
    assert_eq!(at(&body, "tools"), &array(vec![Json::Null]));
    assert_eq!(at(&body, "max_tokens"), &Json::UInt(7));
    assert!(body.get("reasoning_effort").is_none());

    let logged = canonical_payload("gpt-4o", &Vec::new(), &Vec::new(), 7, None);
    assert_eq!(at(&logged, "tools"), &array(Vec::new()));
    assert!(logged.get("stream").is_none());

    let mut body = Json::Null;
    add_max_token_parameter(&mut body, "gpt-5.4", 1);
    assert_eq!(at(&body, "max_completion_tokens"), &Json::UInt(1));
}

/// A user's message as the Messages and the Responses API take it.
fn user(text: &str) -> Vec<Json> {
    vec![object2(
        "role",
        Json::text("user"),
        "content",
        Json::text(text),
    )]
}

#[test]
fn request_uses_the_anthropic_wire_shape_not_the_openai_one() {
    let body = messages_request::build_request(
        family_id("-sonnet-4.6").as_str(),
        Some(&Json::text("be terse")),
        &user("hi"),
        &Vec::new(),
        4096,
        None,
    );
    // `system` is a top-level parameter in the Messages API, never a message
    // with role "system" as in Chat Completions.
    assert!(body.get("system").is_some());
    let messages = at(&body, "messages").as_array().unwrap();
    assert!(messages.iter().all(|m| says(m, "role") != "system"));
    assert_eq!(at(&body, "max_tokens"), &Json::UInt(4096));
    assert_eq!(at(&body, "stream"), &Json::Bool(true));
}

#[test]
fn tools_are_omitted_entirely_when_there_are_none() {
    let body = messages_request::build_request(
        family_id("-sonnet-4.6").as_str(),
        None,
        &user("hi"),
        &Vec::new(),
        1024,
        None,
    );
    // An empty array is not the same as absent; Anthropic rejects `tools: []`.
    assert!(body.get("tools").is_none());
}

#[test]
fn reasoning_effort_is_sent_as_output_config() {
    let body = messages_request::build_request(
        family_id("-sonnet-4.6").as_str(),
        None,
        &user("hi"),
        &Vec::new(),
        1024,
        Some("high"),
    );
    assert_eq!(says(at(&body, "output_config"), "effort"), "high");
    // A `thinking` budget block alongside it would be rejected.
    assert!(body.get("thinking").is_none());
}

#[test]
fn no_reasoning_effort_means_no_output_config() {
    let body = messages_request::build_request(
        family_id("-sonnet-4.6").as_str(),
        None,
        &user("hi"),
        &Vec::new(),
        1024,
        None,
    );
    assert!(body.get("output_config").is_none());
}

#[test]
fn tools_are_serialized_when_present() {
    let tools = vec![object2(
        "name",
        Json::text("read_file"),
        "input_schema",
        object1("type", Json::text("object")),
    )];
    let body = messages_request::build_request(
        family_id("-sonnet-4.6").as_str(),
        None,
        &user("hi"),
        &tools,
        1024,
        None,
    );
    let tools = at(&body, "tools").as_array().unwrap();
    assert_eq!(tools.len(), 1);
    assert_eq!(says(&tools[0], "name"), "read_file");
    // Anthropic names the schema field `input_schema`, not `parameters`.
    assert!(tools[0].get("input_schema").is_some());
}

#[test]
fn a_probe_request_asks_one_thing() {
    let body = build_messages_request(family_id("-sonnet-4.6").as_str(), "sys", "hi", 16);
    assert_eq!(says(&body, "model"), family_id("-sonnet-4.6").as_str());
    assert_eq!(at(&body, "max_tokens"), &Json::UInt(16));
    assert_eq!(at(&body, "messages").as_array().unwrap().len(), 1);
}

#[test]
fn store_is_never_true() {
    let body = responses_request::build_request(
        "gpt-5.5",
        "sys",
        &user("hi"),
        &Vec::new(),
        1024,
        None,
    );
    assert_eq!(at(&body, "store"), &Json::Bool(false));
}

#[test]
fn system_prompt_becomes_instructions_not_a_message() {
    let body = responses_request::build_request(
        "gpt-5.5",
        "be terse",
        &user("hi"),
        &Vec::new(),
        1024,
        None,
    );
    assert_eq!(says(&body, "instructions"), "be terse");
    let input = at(&body, "input").as_array().unwrap();
    assert!(input.iter().all(|m| says(m, "role") != "system"));
}

#[test]
fn reasoning_effort_is_nested_under_reasoning() {
    let body = responses_request::build_request(
        "gpt-5.5",
        "",
        &user("hi"),
        &Vec::new(),
        1024,
        Some("high"),
    );
    assert_eq!(says(at(&body, "reasoning"), "effort"), "high");
    // The Chat Completions spelling must not leak onto this route.
    assert!(body.get("reasoning_effort").is_none());
}

#[test]
fn output_cap_is_the_responses_spelling() {
    let body =
        responses_request::build_request("gpt-5.5", "", &user("hi"), &Vec::new(), 4096, None);
    assert_eq!(at(&body, "max_output_tokens"), &Json::UInt(4096));
    assert!(body.get("max_tokens").is_none());
}

#[test]
fn tool_choice_is_omitted_when_there_are_no_tools() {
    let body =
        responses_request::build_request("grok-4.5", "", &user("hi"), &Vec::new(), 1024, None);
    assert!(body.get("tool_choice").is_none());
    assert!(body.get("tools").is_none());
}

#[test]
fn tools_use_the_flat_responses_schema() {
    let tools = vec![object2(
        "type",
        Json::text("function"),
        "name",
        Json::text("get_weather"),
    )];
    let body = responses_request::build_request("gpt-5.5", "", &user("hi"), &tools, 1024, None);
    let tools = at(&body, "tools").as_array().unwrap();
    assert_eq!(says(&tools[0], "type"), "function");
    assert_eq!(says(&tools[0], "name"), "get_weather");
    assert_eq!(says(&body, "tool_choice"), "auto");
}

#[test]
fn writing_a_field_replaces_it_in_place() {
    let mut body = object2("a", Json::UInt(1), "b", Json::UInt(2));
    body.set("a", Json::UInt(3));
    body.set("c", Json::NegInt(-1));
    assert_eq!(at(&body, "a"), &Json::UInt(3));
    assert_eq!(at(&body, "b"), &Json::UInt(2));
    assert_eq!(at(&body, "c"), &Json::NegInt(-1));
}

/// A refusal as Copilot words it, with the models that the account can reach.
fn real_body() -> String {
    let models = ["gpt-4.1", family_id("-opus-4.7").as_str(), "gpt-5.5"].join(" ");
    r#"{"error":{"message":"The requested model is not available for integrator \"copilot-language-server\". Available models: [MODELS]. Verify the correct Copilot-Integration-Id header is being sent.","code":"model_not_available_for_integrator","param":"model","type":"invalid_request_error"}}"#
        .replace("MODELS", &models)
}

const APP: OauthApp<'static> = OauthApp {
    client_id: "Iv1.0123456789abcdef",
    client_id_env: "JCODE_COPILOT_CLIENT_ID",
};

#[test]
fn recognizes_the_integrator_error() {
    let guidance = guidance_for(400, &real_body(), &CopilotDeployment::DotCom, &APP)
        .expect("should recognize this error");
    assert!(
        guidance.contains(APP.client_id_env),
        "guidance must name the env var that fixes it: {guidance}"
    );
    assert!(
        guidance.contains("jcode login --provider copilot"),
        "guidance must name the re-auth command: {guidance}"
    );
    assert!(
        guidance.contains(APP.client_id),
        "guidance must name the client ID actually in effect: {guidance}"
    );
}

#[test]
fn says_re_auth_alone_is_insufficient() {
    let guidance = guidance_for(400, &real_body(), &CopilotDeployment::DotCom, &APP).unwrap();
    assert!(guidance.contains("Re-authenticating alone is not enough"));
}

#[test]
fn ignores_unrelated_errors() {
    let dotcom = CopilotDeployment::DotCom;
    assert_eq!(
        guidance_for(
            400,
            r#"{"error":{"code":"store_not_supported"}}"#,
            &dotcom,
            &APP
        ),
        None
    );
    assert_eq!(
        guidance_for(429, &real_body(), &dotcom, &APP),
        None,
        "wrong status"
    );
    assert_eq!(guidance_for(500, "internal error", &dotcom, &APP), None);
}

#[test]
fn unauthorized_names_the_enterprise_deployment() {
    let company = CopilotDeployment::from_domain_input("company.ghe.com").unwrap();
    let guidance =
        guidance_for(401, "unauthorized", &company, &APP).expect("401 is actionable");
    assert!(guidance.contains("company.ghe.com"), "{guidance}");
    assert!(
        guidance.contains("copilot-api.company.ghe.com"),
        "must name the host actually contacted: {guidance}"
    );
}

#[test]
fn unauthorized_on_dotcom_points_at_enterprise_as_the_likely_cause() {
    let guidance = guidance_for(403, "forbidden", &CopilotDeployment::DotCom, &APP)
        .expect("403 is actionable");
    assert!(guidance.contains("--enterprise"), "{guidance}");
}

#[test]
fn annotate_preserves_the_original_body() {
    let dotcom = CopilotDeployment::DotCom;
    let annotated = annotate(400, &real_body(), &dotcom, &APP);
    assert!(
        annotated.starts_with(&real_body()),
        "must not lose the raw body"
    );
    assert!(
        annotated.len() > real_body().len(),
        "must have appended guidance"
    );

    let untouched = annotate(400, "something else", &dotcom, &APP);
    assert_eq!(untouched, "something else");
}

#[test]
fn the_first_result_answers_a_call() {
    let failed = ContentBlock::ToolResult {
        tool_use_id: "late".into(),
        content: "boom".into(),
        is_error: Some(true),
    };
    let messages = vec![
        make_msg(
            Role::User,
            vec![tool_result("early", "one"), tool_result("early", "two")],
        ),
        make_msg(
            Role::Assistant,
            vec![
                tool_use("early", "bash", command("a")),
                tool_use("late", "bash", command("b")),
                tool_use("never", "bash", command("c")),
            ],
        ),
        make_msg(
            Role::User,
            vec![failed, tool_result("late", "later"), tool_result("early", "three")],
        ),
    ];
    let built = build_messages("", &messages);
    let answers: Vec<(&str, &str)> = built
        .iter()
        .filter(|entry| says(entry, "role") == "tool")
        .map(|entry| (says(entry, "tool_call_id"), says(entry, "content")))
        .collect();
    let missing = format!("[Error] {TOOL_OUTPUT_MISSING_TEXT}");
    assert_eq!(
        answers,
        [
            ("early", "one"),
            ("never", missing.as_str()),
            ("late", "[Error] boom"),
        ]
    );
}
