//! A session's choices, the shared catalog, and how they start.

use jcode_copilot::catalog::CatalogSpecs;
use jcode_copilot::catalog_store::{load_persisted_catalog, PersistedCopilotCatalog};
use jcode_copilot::chat_request::{
    default_model, fallback_models, is_known_display_model, max_token_parameter_for_model,
};
use jcode_copilot::context_limit_sync::ContextBudget;
use jcode_copilot::context_limits::{
    clear_copilot_catalog_context_limits, context_limit_for_model_with_provider,
    copilot_catalog_context_limit, record_copilot_catalog_context_limits, windows_in_catalog,
    windows_in_specs, ContextLimits,
};
use jcode_copilot::copilot_catalog::{
    catalog_billing_for, CatalogBilling, CopilotAccountType, CopilotEndpoint, CopilotModelInfo,
};
use jcode_copilot::copilot_enterprise::{
    discovered_api_base_for, record_discovered_api_base_for, token_cache_key, DiscoveredApiBases,
};
use jcode_copilot::credentials::{
    is_auth_error, refresh_api_base_after_forbidden, refresh_wait_ms, Credentials,
};
use jcode_copilot::json::{object1, Json};
use jcode_copilot::message::{ChatMessage, ContentBlock, Role, ToolDefinition};
use jcode_copilot::multi_provider::ActiveProvider;
use jcode_copilot::provider::{
    available_models, choose_effort, env_premium_mode, get_or_create_machine_id, has_images,
    intern_effort, is_user_initiated_raw, startup_prefetch_grace_ms, CatalogSource,
    CopilotApiProvider, PremiumMode, SharedCatalog,
};
use jcode_copilot::startup::{
    clear_catalog, commit_catalog, detect_tier_and_set_default, endpoint_for_model,
    invalidate_credentials_and_catalog, keep_usable, known_endpoint, new_with_token, note_seat,
    pinned_model, publish_cached_context_limits, publish_context_limits, seed_cached_catalog,
};
use jcode_copilot::wire::{read_models, read_seat};

/// What the ids of Anthropic's models begin with: the name of their provider.
fn family() -> String {
    format!("{:?}", ActiveProvider::Claude).to_lowercase()
}

/// An id of that family.
fn family_id(rest: &str) -> String {
    family() + rest
}

fn make_test_provider(fetched: Vec<String>) -> (CopilotApiProvider, SharedCatalog) {
    let provider = CopilotApiProvider::new(
        &family(),
        None,
        None,
        "test-session".to_string(),
        "test-machine".to_string(),
    );
    let mut shared = SharedCatalog::new();
    shared.fetched_models = fetched;
    shared.catalog_source = CatalogSource::Live;
    (provider, shared)
}

fn one_model(text: &str) -> CopilotModelInfo {
    read_models(&format!("{{\"data\":[{text}]}}"))
        .expect("valid model info")
        .remove(0)
}

fn usable(id: &str) -> String {
    format!(
        "{{\"id\":\"{id}\",\"capabilities\":{{\"limits\":{{\"max_context_window_tokens\":1000,\
         \"max_output_tokens\":10,\"max_prompt_tokens\":900}},\
         \"supports\":{{\"tool_calls\":true}}}}}}"
    )
}

fn usable_catalog(ids: &[&str]) -> Vec<CopilotModelInfo> {
    let entries: Vec<String> = ids.iter().map(|id| usable(id)).collect();
    read_models(&format!("{{\"data\":[{}]}}", entries.join(","))).unwrap()
}

#[test]
fn available_models_display_returns_fetched_when_populated() {
    let fetched = vec![
        family_id("-opus-4.6"),
        family_id("-sonnet-4.6"),
        "gpt-5.3-codex".to_string(),
        "gemini-3-pro-preview".to_string(),
    ];
    let (_, shared) = make_test_provider(fetched.clone());
    assert_eq!(shared.available_models_display(), fetched);
}

#[test]
fn no_catalog_means_no_models_offered() {
    let (_, shared) = make_test_provider(Vec::new());
    assert!(
        shared.available_models_display().is_empty(),
        "must not invent a catalog before /models answers"
    );
    assert!(shared.available_models_for_switching().is_empty());
    assert!(available_models().is_empty());
}

#[test]
fn switching_list_matches_the_display_list() {
    let fetched = vec![family_id("-opus-4.7"), "gpt-5.6-sol".to_string()];
    let (_, shared) = make_test_provider(fetched.clone());
    assert_eq!(shared.available_models_display(), fetched);
    assert_eq!(shared.available_models_for_switching(), fetched);
}

#[test]
fn prefetch_is_never_skipped_while_the_catalog_is_empty() {
    let (_, shared) = make_test_provider(Vec::new());
    assert!(!shared.has_catalog());
    assert!(shared.wants_prefetch(0, 2000));
}

#[test]
fn prefetch_is_skipped_when_a_fresh_catalog_is_already_loaded() {
    let (_, shared) = make_test_provider(vec![family_id("-opus-4.7")]);
    assert!(shared.has_catalog());
    assert!(
        !shared.wants_prefetch(0, 2000),
        "a fresh catalog should suppress the duplicate startup fetch"
    );
    assert!(shared.wants_prefetch(2000, 2000));
}

#[test]
fn set_model_accepts_any_model_id() {
    let (mut provider, _) = make_test_provider(Vec::new());
    assert!(provider.set_model(family_id("-opus-4.6").as_str()).is_ok());
    assert_eq!(provider.model(), family_id("-opus-4.6").as_str());

    assert!(provider.set_model("some-new-model-2026").is_ok());
    assert_eq!(provider.model(), "some-new-model-2026");
}

#[test]
fn set_model_rejects_empty() {
    let (mut provider, _) = make_test_provider(Vec::new());
    assert!(provider.set_model("").is_err());
    assert!(provider.set_model("   ").is_err());
    assert_eq!(
        provider.set_model(" copilot: "),
        Err("Copilot model cannot be empty".to_string())
    );
    assert!(provider
        .set_model(family_id("-opus-4.6[1m]").as_str())
        .unwrap_err()
        .contains("1M context window models are not supported via Copilot"));
    assert_eq!(provider.model(), default_model(&family()));
}

#[test]
fn gpt5_copilot_models_use_max_completion_tokens() {
    assert_eq!(
        max_token_parameter_for_model("gpt-5.4"),
        "max_completion_tokens"
    );
    assert_eq!(
        max_token_parameter_for_model(" GPT-5.4-pro "),
        "max_completion_tokens"
    );
    assert_eq!(
        max_token_parameter_for_model("gpt-5.3-codex"),
        "max_completion_tokens"
    );
}

#[test]
fn non_gpt5_copilot_models_keep_max_tokens() {
    assert_eq!(
        max_token_parameter_for_model(family_id("-sonnet-4.6").as_str()),
        "max_tokens"
    );
    assert_eq!(
        max_token_parameter_for_model("gemini-3-pro-preview"),
        "max_tokens"
    );
    assert_eq!(max_token_parameter_for_model("gpt-4.1"), "max_tokens");
}

#[test]
fn context_window_handles_dot_and_dash_names() {
    let mut limits = ContextLimits::new();
    record_copilot_catalog_context_limits(
        &mut limits,
        &vec![
            (family_id("-opus-4.6"), 200_000usize),
            (family_id("-sonnet-4.6"), 1_000_000usize),
            ("gpt-5.4".to_string(), 1_050_000usize),
            ("gemini-3.1-pro-preview".to_string(), 1_000_000usize),
        ],
    );

    // What the static table holds for a Copilot model that it does not list.
    let limit = |model: &str| {
        context_limit_for_model_with_provider(&limits, model, Some("copilot"), Some(128_000))
    };

    for spelling in [family_id("-opus-4.6").as_str(), family_id("-opus-4-6").as_str(), family_id("-opus-4.6-fast").as_str()] {
        assert_eq!(limit(spelling), Some(200_000), "{spelling}");
    }
    for spelling in [family_id("-sonnet-4.6").as_str(), family_id("-sonnet-4-6").as_str()] {
        assert_eq!(limit(spelling), Some(1_000_000), "{spelling}");
    }
    assert_eq!(limit("gpt-5.4"), Some(1_050_000));
    assert_eq!(limit("gemini-3.1-pro-preview"), Some(1_000_000));

    // A model the catalog never mentioned still resolves, via the fallback.
    assert_eq!(limit("unknown-model"), Some(128_000));
}

#[test]
fn fork_preserves_fetched_models() {
    let fetched = vec!["model-a".to_string(), "model-b".to_string()];
    let (provider, shared) = make_test_provider(fetched.clone());
    let forked = provider.fork();
    assert_eq!(forked.name(), "copilot");
    assert_eq!(shared.available_models_display(), fetched);
}

fn make_msg(role: Role, blocks: Vec<ContentBlock>) -> ChatMessage {
    ChatMessage {
        role,
        content: blocks,
    }
}

fn text(text: &str) -> ContentBlock {
    ContentBlock::Text { text: text.into() }
}

fn tool_use(id: &str, name: &str) -> ContentBlock {
    ContentBlock::ToolUse {
        id: id.into(),
        name: name.into(),
        input: Json::Object(Vec::new()),
    }
}

fn tool_result(id: &str, content: &str) -> ContentBlock {
    ContentBlock::ToolResult {
        tool_use_id: id.into(),
        content: content.into(),
        is_error: None,
    }
}

#[test]
fn is_user_initiated_empty_messages() {
    let messages: Vec<ChatMessage> = vec![];
    assert!(is_user_initiated_raw(&messages));
}

#[test]
fn is_user_initiated_user_text_message() {
    let messages = vec![make_msg(Role::User, vec![text("Hello")])];
    assert!(is_user_initiated_raw(&messages));
}

#[test]
fn is_user_initiated_tool_result_is_agent() {
    let messages = vec![
        make_msg(Role::User, vec![text("Hello")]),
        make_msg(Role::Assistant, vec![tool_use("call_1", "file_read")]),
        make_msg(Role::User, vec![tool_result("call_1", "file content")]),
    ];
    assert!(!is_user_initiated_raw(&messages));
}

#[test]
fn is_user_initiated_assistant_last_is_user_initiated() {
    let messages = vec![
        make_msg(Role::User, vec![text("Hello")]),
        make_msg(Role::Assistant, vec![text("Hi there")]),
    ];
    assert!(is_user_initiated_raw(&messages));
}

#[test]
fn is_user_initiated_tool_result_with_memory_injection() {
    let messages = vec![
        make_msg(Role::User, vec![text("Hello")]),
        make_msg(Role::Assistant, vec![tool_use("call_1", "bash")]),
        make_msg(Role::User, vec![tool_result("call_1", "output")]),
        make_msg(
            Role::User,
            vec![text(
                "<system-reminder>\nSome memory context\n</system-reminder>",
            )],
        ),
    ];
    assert!(!is_user_initiated_raw(&messages));
}

#[test]
fn is_user_initiated_user_text_after_tool_result_without_system_reminder() {
    let messages = vec![
        make_msg(Role::User, vec![text("Hello")]),
        make_msg(Role::Assistant, vec![tool_use("call_1", "bash")]),
        make_msg(Role::User, vec![tool_result("call_1", "output")]),
        make_msg(Role::User, vec![text("Now do something else")]),
    ];
    assert!(is_user_initiated_raw(&messages));
}

#[test]
fn is_user_initiated_multiple_memory_injections_after_tool_result() {
    let messages = vec![
        make_msg(Role::Assistant, vec![tool_use("call_1", "bash")]),
        make_msg(Role::User, vec![tool_result("call_1", "output")]),
        make_msg(
            Role::User,
            vec![text("<system-reminder>\nMemory 1\n</system-reminder>")],
        ),
        make_msg(
            Role::User,
            vec![text("<system-reminder>\nMemory 2\n</system-reminder>")],
        ),
    ];
    assert!(!is_user_initiated_raw(&messages));
}

/// A session whose catalog describes models with the given efforts.
fn provider_with_specs(
    model: &str,
    specs: &[(&str, &[&str])],
) -> (CopilotApiProvider, SharedCatalog) {
    let infos: Vec<CopilotModelInfo> = specs
        .iter()
        .map(|(id, efforts)| {
            let efforts: Vec<String> = efforts.iter().map(|e| format!("\"{e}\"")).collect();
            one_model(&format!(
                "{{\"id\":\"{id}\",\"capabilities\":{{\"limits\":{{\
                 \"max_context_window_tokens\":200000,\"max_output_tokens\":64000}},\
                 \"supports\":{{\"tool_calls\":true,\"reasoning_effort\":[{}]}}}}}}",
                efforts.join(",")
            ))
        })
        .collect();
    let (mut provider, mut shared) =
        make_test_provider(specs.iter().map(|(id, _)| id.to_string()).collect());
    shared.model_specs = CatalogSpecs::from_models(&infos);
    provider.set_model(model).unwrap();
    (provider, shared)
}

fn efforts_provider(model: &str) -> (CopilotApiProvider, SharedCatalog) {
    provider_with_specs(
        model,
        &[
            (family_id("-sonnet-4.6").as_str(), &["low", "medium", "high", "max"]),
            (
                "gpt-5.6-sol",
                &["none", "low", "medium", "high", "xhigh", "max"],
            ),
            ("gpt-4.1", &[]),
        ],
    )
}

#[test]
fn reasoning_effort_serialized_when_set() {
    let (mut provider, shared) = efforts_provider(family_id("-sonnet-4.6").as_str());
    provider.set_reasoning_effort(&shared, "high").unwrap();
    let mut body = object1("model", Json::text(family_id("-sonnet-4.6").as_str()));
    provider.add_reasoning_effort_parameter(&shared, &mut body, family_id("-sonnet-4.6").as_str());
    assert_eq!(body.get("reasoning_effort"), Some(&Json::text("high")));
}

#[test]
fn reasoning_effort_absent_when_unset() {
    let (provider, shared) = efforts_provider(family_id("-sonnet-4.6").as_str());
    let mut body = object1("model", Json::text(family_id("-sonnet-4.6").as_str()));
    provider.add_reasoning_effort_parameter(&shared, &mut body, family_id("-sonnet-4.6").as_str());
    assert!(body.get("reasoning_effort").is_none());
    assert_eq!(provider.reasoning_effort(&shared), None);
}

#[test]
fn each_model_accepts_exactly_the_efforts_it_advertises() {
    let (mut provider, shared) = efforts_provider(family_id("-sonnet-4.6").as_str());
    assert_eq!(
        provider.available_efforts(&shared),
        vec!["low", "medium", "high", "max"]
    );
    for effort in ["low", "medium", "high", "max"] {
        provider.set_reasoning_effort(&shared, effort).unwrap();
        assert_eq!(
            provider.reasoning_effort(&shared).as_deref(),
            Some(effort)
        );
    }
    // Advertised by a *different* model, so it must be refused here.
    for bad in ["xhigh", "none", "banana", ""] {
        let err = provider.set_reasoning_effort(&shared, bad).unwrap_err();
        assert!(
            err.contains("Unsupported reasoning effort"),
            "{bad}: {err}"
        );
    }

    let (mut sol, shared) = efforts_provider("gpt-5.6-sol");
    assert_eq!(
        sol.available_efforts(&shared),
        vec!["none", "low", "medium", "high", "xhigh", "max"]
    );
    sol.set_reasoning_effort(&shared, "xhigh").unwrap();
}

#[test]
fn models_without_advertised_efforts_reject_them() {
    let (mut provider, shared) = efforts_provider("gpt-4.1");
    assert!(provider.available_efforts(&shared).is_empty());
    let err = provider.set_reasoning_effort(&shared, "high").unwrap_err();
    assert!(
        err.contains("does not accept a reasoning effort"),
        "{err}"
    );
    let mut body = object1("model", Json::text("gpt-4.1"));
    provider.add_reasoning_effort_parameter(&shared, &mut body, "gpt-4.1");
    assert!(body.get("reasoning_effort").is_none());
}

#[test]
fn effort_not_serialized_after_switching_to_a_model_without_efforts() {
    let (mut provider, shared) = efforts_provider(family_id("-sonnet-4.6").as_str());
    provider.set_reasoning_effort(&shared, "max").unwrap();
    provider.set_model("gpt-4.1").unwrap();
    let mut body = object1("model", Json::text("gpt-4.1"));
    provider.add_reasoning_effort_parameter(&shared, &mut body, "gpt-4.1");
    assert!(body.get("reasoning_effort").is_none());
    assert_eq!(provider.reasoning_effort(&shared), None);
}

#[test]
fn efforts_are_empty_without_a_catalog() {
    // No catalog means no basis for claiming a model takes efforts.
    let (mut provider, shared) = make_test_provider(Vec::new());
    provider.set_model(family_id("-sonnet-4.6").as_str()).unwrap();
    assert!(provider.available_efforts(&shared).is_empty());
    assert!(provider.set_reasoning_effort(&shared, "high").is_err());
}

#[test]
fn fork_preserves_reasoning_effort() {
    let (mut provider, shared) = efforts_provider("gpt-5.6-sol");
    provider.set_reasoning_effort(&shared, "xhigh").unwrap();
    let forked = provider.fork();
    assert_eq!(forked.reasoning_effort(&shared).as_deref(), Some("xhigh"));
}

#[test]
fn efforts_are_matched_in_small_letters() {
    let (mut provider, shared) = efforts_provider(family_id("-sonnet-4.6").as_str());
    provider.set_reasoning_effort(&shared, "  HIGH ").unwrap();
    assert_eq!(
        provider.current_reasoning_effort().as_deref(),
        Some("high")
    );
    let supported = vec!["low".to_string(), "high".to_string()];
    assert_eq!(
        choose_effort(&supported, "m", "Max", "max"),
        Err(
            "Unsupported reasoning effort 'Max' for Copilot model 'm'. Supported: low, high"
                .to_string()
        )
    );
    assert_eq!(intern_effort("XHIGH"), Some("xhigh"));
    assert_eq!(intern_effort("banana"), None);
}

/// A session whose catalog reports `window` for `model`.
fn provider_with_context_window(model: &str, window: usize) -> (CopilotApiProvider, SharedCatalog) {
    let info = one_model(&format!(
        "{{\"id\":\"{model}\",\"capabilities\":{{\"limits\":{{\
         \"max_context_window_tokens\":{window}}},\"supports\":{{\"tool_calls\":true}}}}}}"
    ));
    let (mut provider, mut shared) = make_test_provider(vec![model.to_string()]);
    shared.model_specs = CatalogSpecs::from_models(&vec![info]);
    provider.set_model(model).unwrap();
    (provider, shared)
}

#[test]
fn the_live_catalog_beats_the_hardcoded_context_table() {
    let limits = ContextLimits::new();
    let table = Some(200_000);
    assert_eq!(
        context_limit_for_model_with_provider(&limits, family_id("-opus-4.6").as_str(), Some("copilot"), table),
        Some(200_000),
        "precondition: the static table disagrees with the live catalog"
    );

    let (provider, shared) = provider_with_context_window(family_id("-opus-4.6").as_str(), 1_000_000);
    assert_eq!(provider.context_window(&shared, &limits, table), 1_000_000);
}

#[test]
fn context_windows_differ_per_model_rather_than_being_one_global_number() {
    for (model, window) in [
        (family_id("-sonnet-4.6").as_str(), 1_000_000usize),
        ("gpt-5.6-sol", 1_050_000),
        ("grok-4.5", 500_000),
        (family_id("-haiku-4.5").as_str(), 200_000),
        ("gpt-4o", 128_000),
    ] {
        let (provider, shared) = provider_with_context_window(model, window);
        assert_eq!(
            provider.context_window(&shared, &ContextLimits::new(), Some(1)),
            window,
            "{model}"
        );
    }
}

#[test]
fn an_unknown_model_still_falls_back_rather_than_reporting_zero() {
    let (mut provider, shared) = make_test_provider(vec!["mystery-model".to_string()]);
    provider.write_model("mystery-model".to_string());
    assert_eq!(
        provider.context_window(&shared, &ContextLimits::new(), None),
        128_000
    );
}

#[test]
fn the_shared_context_lookup_prefers_the_live_catalog_over_the_static_table() {
    let mut limits = ContextLimits::new();
    let table = Some(128_000);

    assert_eq!(
        context_limit_for_model_with_provider(
            &limits,
            family_id("-sonnet-4.6").as_str(),
            Some("copilot"),
            table
        ),
        Some(128_000),
        "precondition: the static table under-reports the default model"
    );

    record_copilot_catalog_context_limits(
        &mut limits,
        &vec![(family_id("-sonnet-4.6"), 1_000_000usize)],
    );

    assert_eq!(
        context_limit_for_model_with_provider(
            &limits,
            family_id("-sonnet-4.6").as_str(),
            Some("copilot"),
            table
        ),
        Some(1_000_000)
    );
    // Another provider's lookup is left to the table.
    assert_eq!(
        context_limit_for_model_with_provider(&limits, family_id("-sonnet-4.6").as_str(), Some(family_id("").as_str()), table),
        Some(128_000)
    );
}

#[test]
fn the_shared_lookup_matches_dotted_and_hyphenated_spellings() {
    let mut limits = ContextLimits::new();
    record_copilot_catalog_context_limits(
        &mut limits,
        &vec![(family_id("-sonnet-4.6"), 1_000_000usize)],
    );

    for spelling in [
        family_id("-sonnet-4.6").as_str(),
        family_id("-sonnet-4-6").as_str(),
        (format!("{:?}", ActiveProvider::Claude) + "-Sonnet-4.6").as_str(),
    ] {
        assert_eq!(
            context_limit_for_model_with_provider(
                &limits,
                spelling,
                Some("copilot"),
                Some(128_000)
            ),
            Some(1_000_000),
            "{spelling}"
        );
    }
}

#[test]
fn a_model_missing_from_the_catalog_still_falls_back_to_the_static_table() {
    let mut limits = ContextLimits::new();
    record_copilot_catalog_context_limits(
        &mut limits,
        &vec![(family_id("-sonnet-4.6"), 1_000_000usize)],
    );

    assert_eq!(
        context_limit_for_model_with_provider(
            &limits,
            family_id("-opus-4.6").as_str(),
            Some("copilot"),
            Some(200_000)
        ),
        Some(200_000),
        "a model the catalog did not mention must keep its previous answer"
    );
}

#[test]
fn an_empty_catalog_does_not_wipe_the_previous_one() {
    let mut limits = ContextLimits::new();
    record_copilot_catalog_context_limits(
        &mut limits,
        &vec![(family_id("-sonnet-4.6"), 1_000_000usize)],
    );
    record_copilot_catalog_context_limits(&mut limits, &Vec::new());

    assert_eq!(
        copilot_catalog_context_limit(&limits, family_id("-sonnet-4.6").as_str()),
        Some(1_000_000)
    );
    clear_copilot_catalog_context_limits(&mut limits);
    assert_eq!(
        copilot_catalog_context_limit(&limits, family_id("-sonnet-4.6").as_str()),
        None
    );
}

#[test]
fn tier_detection_does_not_overwrite_an_explicitly_selected_model() {
    let catalog = vec![family_id("-opus-4.6"), "grok-4.5".to_string()];
    let (mut provider, _) = make_test_provider(catalog);

    provider.set_model("grok-4.5").expect("set_model");
    provider.apply_catalog_default(family_id("-opus-4.6"));

    assert_eq!(provider.model(), "grok-4.5");
}

#[test]
fn tier_detection_still_installs_the_default_when_nothing_was_selected() {
    let catalog = vec![family_id("-opus-4.6"), "grok-4.5".to_string()];
    let (mut provider, _) = make_test_provider(catalog);

    provider.apply_catalog_default(family_id("-opus-4.6"));

    assert_eq!(provider.model(), family_id("-opus-4.6").as_str());
}

#[test]
fn a_prefixed_selection_survives_tier_detection_too() {
    let catalog = vec![family_id("-opus-4.6"), "gpt-5.5".to_string()];
    let (mut provider, _) = make_test_provider(catalog);

    provider.set_model("copilot:gpt-5.5").expect("set_model");
    provider.apply_catalog_default(family_id("-opus-4.6"));

    assert_eq!(provider.model(), "gpt-5.5");
}

#[test]
fn a_forked_provider_keeps_the_selection_it_inherited() {
    let catalog = vec![family_id("-opus-4.6"), "grok-4.5".to_string()];
    let (mut provider, _) = make_test_provider(catalog);
    provider.set_model("grok-4.5").expect("set_model");

    let mut forked = provider.fork();
    assert_eq!(forked.model(), "grok-4.5");
    forked.apply_catalog_default(family_id("-opus-4.6"));
    assert_eq!(forked.model(), "grok-4.5");
}

#[test]
fn fork_shares_catalog_but_isolates_session_state() {
    let infos: Vec<CopilotModelInfo> = ["model-a", "model-b", "model-c"]
        .into_iter()
        .map(|id| {
            one_model(&format!(
                "{{\"id\":\"{id}\",\"capabilities\":{{\"supports\":{{\
                 \"reasoning_effort\":[\"low\",\"high\"]}}}}}}"
            ))
        })
        .collect();
    let mut shared = SharedCatalog::new();
    shared.fetched_models = infos.iter().map(|m| m.id.clone()).collect();
    shared.model_specs = CatalogSpecs::from_models(&infos);
    shared.catalog_source = CatalogSource::Live;
    let provider = CopilotApiProvider {
        model: "model-a".to_string(),
        model_explicitly_selected: false,
        premium_mode: PremiumMode::OnePerSession,
        user_turn_count: 3,
        reasoning_effort: Some("low".to_string()),
        session_id: "test-session".to_string(),
        machine_id: "test-machine".to_string(),
    };
    let mut forked = provider.fork();

    shared.fetched_models.push("model-d".to_string());
    assert!(shared
        .available_models_display()
        .iter()
        .any(|model| model == "model-d"));

    forked.set_model("model-c").unwrap();
    forked.set_premium_mode(PremiumMode::Zero);
    forked.set_reasoning_effort(&shared, "high").unwrap();
    assert_eq!(provider.model(), "model-a");
    assert_eq!(provider.get_premium_mode(), PremiumMode::OnePerSession);
    assert_eq!(provider.user_turn_count, 3);
    assert_eq!(provider.current_reasoning_effort().as_deref(), Some("low"));
    assert_eq!(forked.model(), "model-c");
    assert_eq!(forked.get_premium_mode(), PremiumMode::Zero);
}

#[test]
fn multi_provider_fork_isolates_copilot_model_selection() {
    let (copilot, _) = make_test_provider(Vec::new());
    let parent_model = copilot.model();
    let worker_model = fallback_models(&family())
        .into_iter()
        .find(|model| *model != parent_model)
        .expect("Copilot test catalog should contain a second model");

    let mut fork = copilot.fork();
    fork.set_model(&format!("copilot:{worker_model}")).unwrap();

    assert_eq!(fork.model(), worker_model);
    assert_eq!(copilot.model(), parent_model);
}

#[test]
fn credential_reload_updates_shared_forks_and_clears_the_old_endpoint() {
    let mut known = DiscoveredApiBases::new();
    let mut credentials = Credentials::new("test-token".to_string());
    record_discovered_api_base_for(&mut known, "test-token", "https://old.example.test");

    credentials.reload_credentials_now(Some("fresh-token"), &mut known);

    assert_eq!(credentials.github_token, "fresh-token");
    assert_eq!(discovered_api_base_for(&known, "test-token"), None);
}

#[test]
fn auth_invalidation_forces_a_fresh_catalog_fetch() {
    let (_, mut shared) = make_test_provider(vec!["stale-model".to_string()]);
    shared.account_type = CopilotAccountType::Business;
    let mut limits = ContextLimits::new();
    let mut billing = CatalogBilling::new();
    assert!(shared.has_catalog());
    clear_catalog(&mut shared, &mut limits, &mut billing);
    assert!(!shared.has_catalog());
    assert!(shared.model_specs.is_empty());
    assert_eq!(shared.catalog_source, CatalogSource::Missing);
    assert_eq!(shared.account_type, CopilotAccountType::Unknown);
}

#[test]
fn missing_replacement_credentials_disable_the_old_account() {
    let mut known = DiscoveredApiBases::new();
    let mut credentials = Credentials::new("test-token".to_string());

    credentials.reload_credentials_now(None, &mut known);

    assert!(credentials.github_token.is_empty());
    assert!(credentials
        .get_bearer_token()
        .unwrap_err()
        .contains("jcode login --provider copilot"));
}

#[test]
fn superseded_credential_cannot_commit_catalog_state() {
    let credentials = Credentials::new("new-token".to_string());
    let committed = credentials.with_current_credential("old-token", 1, || "stale-model");
    assert!(committed.is_none());

    let (mut provider, mut shared) = make_test_provider(Vec::new());
    let (took, filed) = commit_catalog(
        &mut provider,
        &mut shared,
        &mut ContextLimits::new(),
        &mut CatalogBilling::new(),
        &credentials,
        1,
        None,
        &family(),
        usable_catalog(&["stale-model"]),
        "old-token",
        "now",
    );
    assert!(!took);
    assert!(filed.is_none());
    assert!(shared.fetched_models.is_empty());
}

#[test]
fn same_token_relogin_invalidates_an_older_catalog_commit() {
    let mut credentials = Credentials::new("test-token".to_string());
    let generation = credentials.credential_generation();
    credentials.invalidate_credential_generation();

    let committed =
        credentials.with_current_credential("test-token", generation, || "stale-model");
    assert!(committed.is_none());
    let current = credentials.credential_generation();
    assert_eq!(
        credentials.with_current_credential("test-token", current, || "model"),
        Some("model")
    );
    assert!(credentials.credential_is_current("test-token", current));
}

#[test]
fn persisted_catalog_is_loaded_only_for_the_credential_that_fetched_it() {
    let write_cache = |token: &str| {
        PersistedCopilotCatalog {
            models: vec!["account-a-model".to_string()],
            specs: CatalogSpecs::default(),
            credential_key: token_cache_key(token),
            fetched_at_rfc3339: "2026-09-13T00:00:00Z".to_string(),
        }
        .to_file()
    };
    let start = |cache: &str| {
        let (_, shared, _) = new_with_token(
            "account-b-token".to_string(),
            &family(),
            None,
            None,
            "session".to_string(),
            "machine".to_string(),
            PersistedCopilotCatalog::from_file(cache),
            &mut ContextLimits::new(),
        );
        shared
    };

    let other = start(&write_cache("account-a-token"));
    assert!(other.available_models_display().is_empty());

    let matching = start(&write_cache("account-b-token"));
    assert_eq!(
        matching.available_models_display(),
        vec!["account-a-model".to_string()]
    );
    assert_eq!(matching.catalog_source, CatalogSource::Cached);
}

#[test]
fn forbidden_is_not_misreported_as_expired_authentication() {
    assert!(is_auth_error(401));
    assert!(!is_auth_error(403));
}

#[test]
fn a_second_lookup_counts_only_where_the_endpoint_moved() {
    assert_eq!(
        refresh_api_base_after_forbidden("https://a", Some("https://b".to_string())),
        Some("https://b".to_string())
    );
    assert_eq!(
        refresh_api_base_after_forbidden("https://a", Some("https://a".to_string())),
        None
    );
    assert_eq!(refresh_api_base_after_forbidden("https://a", None), None);
}

#[test]
fn a_login_outdates_account_state() {
    let mut credentials = Credentials::new("old".to_string());
    let mut known = DiscoveredApiBases::new();
    record_discovered_api_base_for(&mut known, "old", "https://old.example");
    record_discovered_api_base_for(&mut known, "new", "https://new.example");
    let (_, mut shared) = make_test_provider(vec!["m".to_string()]);
    let mut limits = ContextLimits::new();
    record_copilot_catalog_context_limits(&mut limits, &vec![("m".to_string(), 5)]);
    let mut billing = CatalogBilling::new();
    let generation = credentials.credential_generation();

    invalidate_credentials_and_catalog(
        &mut credentials,
        Some("new"),
        &mut known,
        &mut shared,
        &mut limits,
        &mut billing,
    );

    assert!(!credentials.credential_is_current("old", generation));
    assert_eq!(credentials.get_bearer_token(), Ok("new".to_string()));
    assert_eq!(discovered_api_base_for(&known, "old"), None);
    assert_eq!(discovered_api_base_for(&known, "new"), None);
    assert!(!shared.has_catalog());
    assert_eq!(copilot_catalog_context_limit(&limits, "m"), None);
}

#[test]
fn a_fetched_catalog_is_installed_whole() {
    let (mut provider, mut shared) = make_test_provider(Vec::new());
    let mut limits = ContextLimits::new();
    let mut billing = CatalogBilling::new();
    let mut fetched = usable_catalog(&["grok-4.5", family_id("-opus-4.6").as_str()]);
    fetched.push(one_model(r#"{"id":"text-embedding-3-small"}"#));
    let filed = detect_tier_and_set_default(
        &mut provider,
        &mut shared,
        &mut limits,
        &mut billing,
        None,
        &family(),
        fetched,
        "token",
        "now",
    )
    .unwrap();
    assert_eq!(provider.model(), family_id("-opus-4.6").as_str());
    assert_eq!(
        shared.available_models_display(),
        ["grok-4.5", family_id("-opus-4.6").as_str()]
    );
    assert_eq!(shared.catalog_source, CatalogSource::Live);
    assert_eq!(copilot_catalog_context_limit(&limits, "grok-4.5"), Some(1000));
    assert!(catalog_billing_for(&billing, "grok-4.5").is_none());
    assert_eq!(filed.credential_key, token_cache_key("token"));
    assert_eq!(filed.fetched_at_rfc3339, "now");
    assert!(load_persisted_catalog(Some(filed), "token").is_some());
}

#[test]
fn a_pinned_model_is_installed_where_it_is_offered() {
    for (pinned, expected) in [
        (Some("grok-4.5"), "grok-4.5"),
        (Some("absent"), family_id("-opus-4.6").as_str()),
        (pinned_model(Some("  ")), family_id("-opus-4.6").as_str()),
    ] {
        let (mut provider, mut shared) = make_test_provider(Vec::new());
        let _ = detect_tier_and_set_default(
            &mut provider,
            &mut shared,
            &mut ContextLimits::new(),
            &mut CatalogBilling::new(),
            pinned,
            &family(),
            usable_catalog(&["grok-4.5", family_id("-opus-4.6").as_str()]),
            "token",
            "now",
        );
        assert_eq!(provider.model(), expected);
    }
    assert_eq!(pinned_model(Some(" m ")), Some("m"));
    assert_eq!(pinned_model(None), None);
}

#[test]
fn only_usable_models_are_kept() {
    let mut fetched = usable_catalog(&["a"]);
    fetched.push(one_model(r#"{"id":"b"}"#));
    let kept = keep_usable(fetched);
    assert_eq!(kept.len(), 1);
    assert_eq!(kept[0].id, "a");
    assert_eq!(windows_in_catalog(&kept), [("a".to_string(), 1000)]);
    let specs = CatalogSpecs::from_models(&kept);
    assert_eq!(windows_in_specs(&specs), [("a".to_string(), 1000)]);
    let mut limits = ContextLimits::new();
    publish_context_limits(&mut limits, &kept);
    assert_eq!(copilot_catalog_context_limit(&limits, "a"), Some(1000));
    let mut limits = ContextLimits::new();
    publish_cached_context_limits(&mut limits, &specs);
    assert_eq!(copilot_catalog_context_limit(&limits, "a"), Some(1000));
}

#[test]
fn a_missing_route_is_fetched() {
    let (_, mut shared) = make_test_provider(Vec::new());
    let mut limits = ContextLimits::new();
    assert_eq!(known_endpoint(&shared, "m"), None);
    let (endpoint, filed) =
        endpoint_for_model(&mut shared, &mut limits, "m", None, "token", "now");
    assert_eq!(endpoint, CopilotEndpoint::ChatCompletions);
    assert!(filed.is_none());

    let fetched = read_models(
        r#"{"data":[{"id":"m","supported_endpoints":["/responses"],"capabilities":{
            "limits":{"max_output_tokens":1,"max_prompt_tokens":2},
            "supports":{"tool_calls":true}}}]}"#,
    );
    let (endpoint, _) = endpoint_for_model(&mut shared, &mut limits, "m", fetched, "token", "now");
    assert_eq!(endpoint, CopilotEndpoint::Responses);
    assert_eq!(known_endpoint(&shared, "m"), Some(CopilotEndpoint::Responses));
}

#[test]
fn the_catalog_is_described_by_its_source_and_plan() {
    let mut shared = SharedCatalog::new();
    assert_eq!(shared.model_catalog_detail(), "catalog still loading");
    note_seat(
        &mut shared,
        &read_seat(r#"{"copilot_plan":"business"}"#).unwrap(),
    );
    assert_eq!(
        shared.model_catalog_detail(),
        "catalog still loading, business plan"
    );
    shared.catalog_source = CatalogSource::Cached;
    assert_eq!(
        shared.model_catalog_detail(),
        "cached live catalog, business plan"
    );
    shared.catalog_source = CatalogSource::Live;
    assert_eq!(shared.model_catalog_detail(), "business plan");
    shared.account_type = CopilotAccountType::Unknown;
    assert_eq!(shared.model_catalog_detail(), "");
}

#[test]
fn a_filed_catalog_seeds_the_shared_one() {
    let mut shared = SharedCatalog::new();
    let mut limits = ContextLimits::new();
    let filed = || PersistedCopilotCatalog {
        models: vec!["m".to_string()],
        specs: CatalogSpecs::from_models(&usable_catalog(&["m"])),
        credential_key: token_cache_key("t"),
        fetched_at_rfc3339: String::new(),
    };
    seed_cached_catalog(&mut shared, &mut limits, Some(filed()), "other");
    assert!(!shared.has_catalog());
    seed_cached_catalog(&mut shared, &mut limits, Some(filed()), "t");
    assert!(shared.has_catalog());
    assert_eq!(copilot_catalog_context_limit(&limits, "m"), Some(1000));
}

#[test]
fn one_premium_request_is_spent_per_session() {
    let (mut provider, shared) = make_test_provider(Vec::new());
    provider.set_premium_mode(env_premium_mode(Some("1")));
    let messages = vec![make_msg(Role::User, vec![text("Hello")])];
    let first = provider.begin_turn(&shared, &messages, &Vec::new(), "sys");
    assert!(first.is_user_initiated);
    assert_eq!(provider.user_turn_count, 1);
    let second = provider.begin_turn(&shared, &messages, &Vec::new(), "sys");
    assert!(!second.is_user_initiated);
    assert_eq!(provider.user_turn_count, 1);
    provider.set_premium_mode(env_premium_mode(Some("0")));
    assert!(!provider.is_user_initiated(&messages));
    provider.set_premium_mode(env_premium_mode(None));
    assert!(provider.is_user_initiated(&messages));
    assert!(provider.supports_compaction());
}

#[test]
fn a_turn_holds_what_is_sent_and_logged() {
    let (mut provider, shared) = make_test_provider(Vec::new());
    let messages = vec![make_msg(
        Role::User,
        vec![
            text("look"),
            ContentBlock::Image {
                media_type: "image/png".into(),
                data: "aW1hZ2U=".into(),
            },
        ],
    )];
    let tools = vec![ToolDefinition {
        name: "read".to_string(),
        description: "Read".to_string(),
        input_schema: Json::Object(Vec::new()),
    }];
    let turn = provider.begin_turn(&shared, &messages, &tools, "sys");
    assert!(turn.has_images);
    assert_eq!(turn.messages.len(), 2);
    assert_eq!(turn.tools.len(), 1);
    assert!(turn.tools_value.is_some());
    assert!(turn.system_value.is_some());
    assert_eq!(
        turn.canonical.get("model"),
        Some(&Json::text(family_id("-sonnet-4.6").as_str()))
    );
    assert!(!has_images(&Vec::new()));
}

#[test]
fn settings_have_defaults() {
    assert_eq!(startup_prefetch_grace_ms(None), 2000);
    assert_eq!(startup_prefetch_grace_ms(Some("150")), 150);
    assert_eq!(startup_prefetch_grace_ms(Some("soon")), 2000);
    assert_eq!(
        get_or_create_machine_id(Some(" abc\n"), "1-2"),
        ("abc".to_string(), false)
    );
    assert_eq!(
        get_or_create_machine_id(Some(" "), "1-2-3"),
        ("123".to_string(), true)
    );
    assert_eq!(
        get_or_create_machine_id(None, "1-2-3"),
        ("123".to_string(), true)
    );
    assert!(is_known_display_model(&family_id("-sonnet-4.6"), &family()));
    assert!(!is_known_display_model("no-such-model", &family()));
}

#[test]
fn the_live_window_resets_the_warning() {
    let mut budget = ContextBudget {
        context_limit: 128_000,
        context_warning_shown: true,
    };
    assert_eq!(budget.sync_context_limit_from_provider(true, 1_000_000), None);
    assert_eq!(budget.context_limit, 128_000);
    assert_eq!(
        budget.sync_context_limit_from_provider(false, 1_000_000),
        Some(1_000_000)
    );
    assert_eq!(budget.context_limit, 1_000_000);
    assert!(!budget.context_warning_shown);
    assert_eq!(budget.sync_context_limit_from_provider(false, 1_000_000), None);
}

#[test]
fn a_refresh_after_a_login_is_awaited_for_ten_seconds() {
    assert_eq!(refresh_wait_ms(true, 0), Some(20));
    assert_eq!(refresh_wait_ms(true, 9_999_999_999), Some(20));
    assert_eq!(refresh_wait_ms(true, 10_000_000_000), None);
    assert_eq!(refresh_wait_ms(false, 0), None);
}
