//! The model catalog: what it says of each model, and how it is kept.

use jcode_copilot::catalog::{CatalogSpecs, ModelSpec};
use jcode_copilot::catalog_store::{
    load_persisted_catalog, persist_catalog, PersistedCopilotCatalog,
};
use jcode_copilot::copilot_catalog::{
    choose_default_model, models_failure, models_url, CopilotAccountType, CopilotEndpoint,
    CopilotModelInfo,
};
use jcode_copilot::copilot_enterprise::token_cache_key;
use jcode_copilot::json::{array, object1, Json};
use jcode_copilot::multi_provider::ActiveProvider;
use jcode_copilot::wire::{models_in, read_model, read_models};

/// What the ids of Anthropic's models begin with: the name of their provider.
fn family() -> String {
    format!("{:?}", ActiveProvider::Claude).to_lowercase()
}

/// An id of that family.
fn family_id(rest: &str) -> String {
    family() + rest
}

fn quoted(texts: &[&str]) -> String {
    let quoted: Vec<String> = texts.iter().map(|text| format!("\"{text}\"")).collect();
    quoted.join(",")
}

fn only(text: String) -> CopilotModelInfo {
    read_models(&format!("{{\"data\":[{text}]}}"))
        .expect("valid model info")
        .remove(0)
}

fn info(id: &str, endpoints: &[&str], context: Option<usize>) -> CopilotModelInfo {
    let context = match context {
        Some(window) => window.to_string(),
        None => "null".to_string(),
    };
    only(format!(
        "{{\"id\":\"{id}\",\"supported_endpoints\":[{}],\
         \"capabilities\":{{\"limits\":{{\"max_context_window_tokens\":{context}}}}}}}",
        quoted(endpoints)
    ))
}

#[test]
fn prefers_messages_over_chat_completions_regardless_of_order() {
    let listed_first = info("a", &["/v1/messages", "/chat/completions"], None);
    let listed_last = info("b", &["/chat/completions", "/v1/messages"], None);
    assert_eq!(listed_first.endpoint(), CopilotEndpoint::Messages);
    assert_eq!(listed_last.endpoint(), CopilotEndpoint::Messages);
}

#[test]
fn prefers_responses_over_chat_completions() {
    let model = info("a", &["/chat/completions", "/responses"], None);
    assert_eq!(model.endpoint(), CopilotEndpoint::Responses);
}

#[test]
fn responses_only_model_routes_to_responses() {
    let model = info("gpt-5.5", &["/responses", "ws:/responses"], None);
    assert_eq!(model.endpoint(), CopilotEndpoint::Responses);
}

#[test]
fn websocket_variants_do_not_influence_routing() {
    let model = info("gpt-5.5", &["ws:/responses", "/responses"], None);
    assert_eq!(model.endpoint(), CopilotEndpoint::Responses);
}

#[test]
fn websocket_only_model_falls_back_to_chat_completions() {
    let model = info("a", &["ws:/responses"], None);
    assert_eq!(model.endpoint(), CopilotEndpoint::ChatCompletions);
}

#[test]
fn model_without_advertised_endpoints_uses_chat_completions() {
    let model = info("gpt-4o", &[], None);
    assert_eq!(model.endpoint(), CopilotEndpoint::ChatCompletions);
}

#[test]
fn unknown_model_falls_back_to_chat_completions() {
    let specs = CatalogSpecs::default();
    assert_eq!(
        specs.endpoint_for("never-seen"),
        CopilotEndpoint::ChatCompletions
    );
    assert_eq!(specs.context_window_for("never-seen"), None);
}

#[test]
fn serves_live_context_window() {
    let specs = CatalogSpecs::from_models(&vec![info(
        family_id("-sonnet-4.6").as_str(),
        &["/v1/messages"],
        Some(1_000_000),
    )]);
    assert_eq!(
        specs.context_window_for(family_id("-sonnet-4.6").as_str()),
        Some(1_000_000)
    );
    assert_eq!(
        specs.endpoint_for(family_id("-sonnet-4.6").as_str()),
        CopilotEndpoint::Messages
    );
}

/// Entries of a `/models` answer, as an account is served them.
fn catalog() -> Vec<CopilotModelInfo> {
    let text = r#"{"object":"list","data":[
  {"id":"gpt-5.5","supported_endpoints":["/responses","ws:/responses"],
   "capabilities":{"limits":{"max_output_tokens":128000}}},
  {"id":"gpt-5.6-sol","supported_endpoints":["/responses","ws:/responses"]},
  {"id":"gpt-5.6-luna","supported_endpoints":["/responses"]},
  {"id":"gpt-5.6-terra","supported_endpoints":["/responses"]},
  {"id":"gpt-5.3-codex","supported_endpoints":["/responses"]},
  {"id":"gpt-5.4-mini","supported_endpoints":["/responses"]},
  {"id":"grok-4.5","supported_endpoints":["/responses"]},
  {"id":"mai-code-1-flash-picker","supported_endpoints":["/responses"]},
  {"id":"FAMILY-sonnet-4.6","supported_endpoints":["/chat/completions","/v1/messages"],
   "capabilities":{"limits":{"max_context_window_tokens":1000000,"max_output_tokens":64000}}},
  {"id":"FAMILY-opus-4.6","supported_endpoints":["/v1/messages","/chat/completions"]},
  {"id":"FAMILY-haiku-4.5","supported_endpoints":["/v1/messages"]},
  {"id":"gpt-4o"},
  {"id":"gpt-4.1"},
  {"id":"gpt-4","capabilities":{"limits":{"max_context_window_tokens":32768}}},
  {"id":"gpt-3.5-turbo","capabilities":{"limits":{"max_context_window_tokens":16384}}}
]}"#;
    read_models(&text.replace("FAMILY", &family())).unwrap()
}

fn find<'a>(models: &'a [CopilotModelInfo], id: &str) -> &'a CopilotModelInfo {
    models
        .iter()
        .find(|model| model.id == id)
        .unwrap_or_else(|| panic!("{id} missing"))
}

#[test]
fn responses_only_models_do_not_route_to_chat_completions() {
    let models = catalog();
    for id in [
        "gpt-5.5",
        "gpt-5.6-sol",
        "gpt-5.6-luna",
        "gpt-5.6-terra",
        "gpt-5.3-codex",
        "gpt-5.4-mini",
        "grok-4.5",
        "mai-code-1-flash-picker",
    ] {
        assert_eq!(
            find(&models, id).endpoint(),
            CopilotEndpoint::Responses,
            "{id} must not be routed to /chat/completions"
        );
    }
}

#[test]
fn claude_models_route_to_the_native_messages_api() {
    let models = catalog();
    for id in [family_id("-sonnet-4.6").as_str(), family_id("-opus-4.6").as_str(), family_id("-haiku-4.5").as_str()] {
        assert_eq!(
            find(&models, id).endpoint(),
            CopilotEndpoint::Messages,
            "{id}"
        );
    }
}

#[test]
fn legacy_models_without_advertised_endpoints_use_chat_completions() {
    let models = catalog();
    for id in ["gpt-4o", "gpt-4.1", "gpt-4"] {
        assert!(find(&models, id).supported_endpoints.is_empty(), "{id}");
        assert_eq!(
            find(&models, id).endpoint(),
            CopilotEndpoint::ChatCompletions,
            "{id}"
        );
    }
}

#[test]
fn live_context_window_beats_the_hardcoded_table() {
    let models = catalog();
    assert_eq!(
        find(&models, family_id("-sonnet-4.6").as_str()).max_context_window_tokens(),
        Some(1_000_000)
    );
    assert_eq!(
        find(&models, "gpt-4").max_context_window_tokens(),
        Some(32_768)
    );
    assert_eq!(
        find(&models, "gpt-3.5-turbo").max_context_window_tokens(),
        Some(16_384)
    );
}

#[test]
fn output_caps_are_read_from_the_catalog() {
    let models = catalog();
    assert_eq!(
        find(&models, family_id("-sonnet-4.6").as_str()).max_output_tokens(),
        Some(64_000)
    );
    assert_eq!(find(&models, "gpt-5.5").max_output_tokens(), Some(128_000));
}

#[test]
fn forgetting_a_stale_spec_forces_the_next_lookup_to_refetch() {
    let info = only(
        r#"{"id":"gpt-5.6-terra","supported_endpoints":["/responses","ws:/responses"],
            "capabilities":{"limits":{"max_context_window_tokens":1050000,
            "max_output_tokens":128000},"supports":{"tool_calls":true}}}"#
            .to_string(),
    );

    let mut specs = CatalogSpecs::from_models(&vec![info]);
    assert_eq!(
        specs.endpoint_for("gpt-5.6-terra"),
        CopilotEndpoint::Responses
    );

    assert!(specs.forget("gpt-5.6-terra"));
    // Forgotten, so the lookup now misses. The miss is the refetch trigger; the
    // bare fallback on its own would be the wrong endpoint for this model.
    assert!(specs.get("gpt-5.6-terra").is_none());
    // Forgetting twice reports false, which is what stops the retry from
    // looping when the spec was already absent.
    assert!(!specs.forget("gpt-5.6-terra"));
}

#[test]
fn a_responses_only_model_is_never_routed_to_chat_completions_when_described() {
    let models: Vec<CopilotModelInfo> = ["gpt-5.5", "gpt-5.6-sol", "gpt-5.6-terra"]
        .iter()
        .map(|id| {
            only(format!(
                "{{\"id\":\"{id}\",\"supported_endpoints\":[\"/responses\",\"ws:/responses\"],\
                 \"capabilities\":{{\"limits\":{{\"max_context_window_tokens\":1050000,\
                 \"max_output_tokens\":128000}},\"supports\":{{\"tool_calls\":true}}}}}}"
            ))
        })
        .collect();

    let specs = CatalogSpecs::from_models(&models);
    for model in ["gpt-5.5", "gpt-5.6-sol", "gpt-5.6-terra"] {
        assert_eq!(
            specs.endpoint_for(model),
            CopilotEndpoint::Responses,
            "{model} must route to /responses"
        );
    }
}

#[test]
fn the_cached_catalog_round_trips_the_context_windows() {
    let info = only(
        r#"{"id":"FAMILY-sonnet-4.6","capabilities":{"limits":{
            "max_context_window_tokens":1000000,"max_output_tokens":64000},
            "supports":{"tool_calls":true}}}"#
            .replace("FAMILY", &family()),
    );
    let cached = PersistedCopilotCatalog {
        models: vec![family_id("-sonnet-4.6")],
        specs: CatalogSpecs::from_models(&vec![info]),
        credential_key: String::new(),
        fetched_at_rfc3339: "2026-01-01T00:00:00Z".to_string(),
    };

    let restored = PersistedCopilotCatalog::from_file(&cached.to_file()).unwrap();
    assert_eq!(
        restored.specs.context_window_for(family_id("-sonnet-4.6").as_str()),
        Some(1_000_000)
    );
    assert_eq!(
        restored.specs.max_output_tokens_for(family_id("-sonnet-4.6").as_str()),
        Some(64_000)
    );
    assert_eq!(restored.models, cached.models);
    assert_eq!(restored.fetched_at_rfc3339, "2026-01-01T00:00:00Z");
    assert!(restored.specs.get(family_id("-sonnet-4.6").as_str()).unwrap().supports_tool_calls);
}

#[test]
fn an_ids_only_cache_from_an_older_build_still_loads() {
    let legacy = r#"{"models":["gpt-4o"],"fetched_at_rfc3339":"2026-01-01T00:00:00Z"}"#;
    let restored = PersistedCopilotCatalog::from_file(legacy).unwrap();
    assert_eq!(restored.models, vec!["gpt-4o".to_string()]);
    assert!(restored.specs.is_empty());
    assert_eq!(restored.credential_key, "");
}

#[test]
fn a_kept_catalog_is_written_as_json() {
    let cached = PersistedCopilotCatalog {
        models: vec!["gpt-4o".to_string()],
        specs: CatalogSpecs::default(),
        credential_key: "k".to_string(),
        fetched_at_rfc3339: "t".to_string(),
    };
    assert_eq!(
        cached.to_file(),
        r#"{"credential_key":"k","fetched_at_rfc3339":"t","models":["gpt-4o"],"specs":{"specs":{}}}"#
    );
    assert!(PersistedCopilotCatalog::from_file("{").is_none());
    assert!(PersistedCopilotCatalog::from_file(r#"{"models":"gpt-4o"}"#).is_none());
    let again = PersistedCopilotCatalog::from_json(&cached.to_json()).unwrap();
    assert_eq!(again.models, cached.models);
    assert_eq!(again.credential_key, "k");
}

#[test]
fn every_part_of_a_spec_survives_the_file() {
    let mut specs = CatalogSpecs::default();
    specs.insert(
        "m".to_string(),
        ModelSpec {
            endpoint: CopilotEndpoint::Messages,
            context_window: None,
            max_output_tokens: Some(7),
            reasoning_efforts: vec!["low".to_string(), "high".to_string()],
            supports_vision: true,
            supports_tool_calls: false,
        },
    );
    let cached = persist_catalog(&vec!["m".to_string()], &specs, "token", "now").unwrap();
    assert_eq!(cached.credential_key, token_cache_key("token"));
    let restored = PersistedCopilotCatalog::from_file(&cached.to_file()).unwrap();
    let spec = restored.specs.get("m").unwrap();
    assert_eq!(spec.endpoint, CopilotEndpoint::Messages);
    assert_eq!(spec.context_window, None);
    assert_eq!(spec.max_output_tokens, Some(7));
    assert_eq!(spec.reasoning_efforts, ["low", "high"]);
    assert!(spec.supports_vision);
    assert!(!spec.supports_tool_calls);
    assert_eq!(restored.specs.iter().len(), 1);
    assert_eq!(restored.specs.reasoning_efforts_for("m"), ["low", "high"]);
    assert!(restored.specs.supports_vision("m"));

    assert!(persist_catalog(&Vec::new(), &specs, "token", "now").is_none());
}

#[test]
fn a_kept_catalog_is_read_by_its_own_account_alone() {
    let specs = CatalogSpecs::default();
    let cached = |token: &str| persist_catalog(&vec!["m".to_string()], &specs, token, "now");
    assert!(load_persisted_catalog(cached("a"), "a").is_some());
    assert!(load_persisted_catalog(cached("a"), "b").is_none());
    assert!(load_persisted_catalog(None, "a").is_none());
}

#[test]
fn what_a_model_can_do_is_read_from_its_entry() {
    let model = only(
        r#"{"id":"m","name":"M","vendor":"V","version":"1","model_picker_enabled":true,
            "policy":{"state":"disabled"},
            "capabilities":{"limits":{"max_prompt_tokens":9,
              "vision":{"supported_media_types":["image/png"]}},
              "supports":{"tool_calls":true,"vision":true,"streaming":true,
              "reasoning_effort":["low"]}}}"#
            .to_string(),
    );
    assert_eq!(model.name, "M");
    assert_eq!(model.vendor, "V");
    assert_eq!(model.version, "1");
    assert!(model.model_picker_enabled);
    assert!(model.is_disabled_by_policy());
    assert_eq!(model.max_prompt_tokens(), Some(9));
    assert_eq!(model.reasoning_efforts(), ["low"]);
    assert!(model.supports_reasoning_effort());
    assert_eq!(model.supports_tool_calls(), Some(true));
    assert!(model.supports_vision());
    assert!(!model.is_usable_for_chat());
    assert!(model.catalog_billing().is_none());
    let spec = ModelSpec::from_info(&model);
    assert!(spec.supports_vision);
    assert!(spec.supports_tool_calls);
}

#[test]
fn only_models_with_limits_and_tools_can_serve_a_turn() {
    let whole = r#"{"id":"m","capabilities":{"limits":{"max_output_tokens":1,
        "max_prompt_tokens":2},"supports":{"tool_calls":false}}}"#;
    let model = only(whole.to_string());
    assert!(model.is_usable_for_chat());
    // The prompt cap stands in for a context window that is not stated.
    assert_eq!(model.max_context_window_tokens(), Some(2));
    let embedding = only(r#"{"id":"text-embedding-3-small"}"#.to_string());
    assert!(!embedding.is_usable_for_chat());
    let media = only(
        r#"{"id":"m","capabilities":{"limits":{"vision":
            {"supported_media_types":["image/png"]}}}}"#
            .to_string(),
    );
    assert!(media.supports_vision());
}

#[test]
fn an_entry_needs_an_id() {
    assert!(read_model(&object1("name", Json::text("x"))).is_none());
    assert!(read_model(&Json::Null).is_none());
    let plain = read_model(&object1("id", Json::text("x"))).unwrap();
    assert_eq!(plain.id, "x");
    assert_eq!(plain.name, "");
    assert_eq!(plain.supports_tool_calls(), None);
    assert!(!plain.is_usable_for_chat());
    let list = object1("data", array(vec![object1("id", Json::text("x"))]));
    assert_eq!(models_in(&list).unwrap().len(), 1);
    assert!(models_in(&object1("data", array(vec![Json::Null]))).is_none());
    assert!(read_models("{").is_none());
}

#[test]
fn the_default_is_a_model_that_is_offered() {
    let offered = catalog();
    let default = choose_default_model(&offered, &family());
    assert!(offered.iter().any(|model| model.id == default));
    assert_eq!(default, family_id("-opus-4.6").as_str());
    assert_eq!(choose_default_model(&Vec::new(), &family()), family_id("-sonnet-4").as_str());
    let strange = read_models(
        r#"{"data":[{"id":"first"},{"id":"picked","model_picker_enabled":true}]}"#,
    )
    .unwrap();
    assert_eq!(choose_default_model(&strange, &family()), "picked");
    let plain = read_models(
        r#"{"data":[{"id":"off","policy":{"state":"Disabled"}},{"id":"on"}]}"#,
    )
    .unwrap();
    assert_eq!(choose_default_model(&plain, &family()), "on");
}

#[test]
fn endpoints_and_accounts_have_names() {
    assert_eq!(CopilotEndpoint::Messages.path(), "/v1/messages");
    assert_eq!(CopilotEndpoint::Responses.path(), "/responses");
    assert_eq!(CopilotEndpoint::ChatCompletions.path(), "/chat/completions");
    assert_eq!(CopilotEndpoint::Messages.as_str(), "/v1/messages");
    assert_eq!(CopilotAccountType::Individual.to_text(), "individual");
    assert_eq!(CopilotAccountType::Business.to_text(), "business");
    assert_eq!(CopilotAccountType::Enterprise.to_text(), "enterprise");
    assert_eq!(CopilotAccountType::Unknown.to_text(), "unknown");
}

#[test]
fn the_catalog_is_asked_for_under_the_base() {
    assert_eq!(
        models_url("https://api.githubcopilot.com"),
        "https://api.githubcopilot.com/models"
    );
    assert_eq!(
        models_failure("401 Unauthorized", "no"),
        "Copilot models fetch failed (HTTP 401 Unauthorized): no"
    );
}

#[test]
fn catalogs_may_come_as_lists_of_their_fields() {
    let models = read_models(
        r#"[[["m","M","v","1",true,[[7,8,9,[["image/png"]]],[true]],["/responses"],["enabled"],[[1000,[1,2,3]]]]]]"#,
    )
    .unwrap();
    assert_eq!(models.len(), 1);
    let model = &models[0];
    assert_eq!(model.id, "m");
    assert_eq!(model.vendor, "v");
    assert!(model.model_picker_enabled);
    assert_eq!(model.max_context_window_tokens(), Some(7));
    assert_eq!(model.max_output_tokens(), Some(8));
    assert_eq!(model.max_prompt_tokens(), Some(9));
    assert_eq!(model.supports_tool_calls(), Some(true));
    assert_eq!(model.supported_endpoints, ["/responses"]);
    assert!(read_models(r#"[[],1]"#).is_none());
    assert!(read_models(r#"[[[]]]"#).is_none());

    let filed = PersistedCopilotCatalog::from_file(
        r#"[["m"],[{"m":["Messages",7,null,["low"],true,false]}],"2026-01-01T00:00:00Z"]"#,
    )
    .unwrap();
    assert_eq!(filed.models, ["m"]);
    assert_eq!(filed.fetched_at_rfc3339, "2026-01-01T00:00:00Z");
    assert_eq!(filed.specs.context_window_for("m"), Some(7));
    assert!(PersistedCopilotCatalog::from_file(r#"[["m"],[{"m":["Messages"]}],"t"]"#).is_none());
}

#[test]
fn an_endpoint_may_be_filed_as_an_object() {
    let filed = |endpoint: &str| {
        PersistedCopilotCatalog::from_file(&format!(
            "{{\"models\":[\"m\"],\"specs\":{{\"specs\":{{\"m\":{{\"endpoint\":{endpoint},\
             \"context_window\":7,\"max_output_tokens\":null,\"reasoning_efforts\":[],\
             \"supports_vision\":false,\"supports_tool_calls\":true}}}}}},\
             \"fetched_at_rfc3339\":\"t\"}}"
        ))
    };
    for endpoint in [r#""Messages""#, r#"{"Messages":null}"#] {
        let catalog = filed(endpoint).unwrap();
        assert_eq!(catalog.specs.endpoint_for("m"), CopilotEndpoint::Messages);
    }
    for endpoint in [
        r#"{"Messages":1}"#,
        r#"{"Messages":null,"Responses":null}"#,
        r#"{"Messages":null,"Messages":null}"#,
        r#"{"Other":null}"#,
        "{}",
        "null",
    ] {
        assert!(filed(endpoint).is_none(), "{endpoint}");
    }
}

#[test]
fn a_field_of_a_catalog_stands_only_once() {
    assert!(read_models(r#"{"data":[],"data":[]}"#).is_none());
    assert!(read_models(r#"{"data":[{"id":"m","id":"m"}]}"#).is_none());
    assert!(read_models(
        r#"{"data":[{"id":"m","capabilities":{"limits":{"vision":null,"vision":null}}}]}"#
    )
    .is_none());
    let models = read_models(
        r#"{"object":"list","data":[{"id":"m","other":1e999,"other":"\ud800"}],"object":2}"#,
    )
    .unwrap();
    assert_eq!(models[0].id, "m");

    // The specs are kept by model: of a model that stands twice the last one counts.
    let spec = |window: u32| format!("[\"Messages\",{window},null,[],true,false]");
    let filed = PersistedCopilotCatalog::from_file(&format!(
        "{{\"models\":[\"m\"],\"specs\":{{\"specs\":{{\"m\":{},\"m\":{}}}}},\
         \"fetched_at_rfc3339\":\"t\"}}",
        spec(1),
        spec(2)
    ))
    .unwrap();
    assert_eq!(filed.specs.context_window_for("m"), Some(2));
    assert!(PersistedCopilotCatalog::from_file(
        r#"{"models":["m"],"models":["m"],"fetched_at_rfc3339":"t"}"#
    )
    .is_none());
}
