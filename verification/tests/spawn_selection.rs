use jcode_copilot::multi_provider::ActiveProvider;
use jcode_copilot::spawn_provider::{
    resolve_swarm_spawn_selection, route_for_model, CoordinatorSpawnIdentity, LiveProvider,
};

/// What the ids of Anthropic's models begin with: the name of their provider.
fn family() -> String {
    format!("{:?}", ActiveProvider::Claude).to_lowercase()
}

/// An id of that family.
fn family_id(rest: &str) -> String {
    family() + rest
}

fn coordinator_identity(
    model: Option<&str>,
    provider_key: Option<&str>,
    route_api_method: Option<&str>,
) -> CoordinatorSpawnIdentity {
    CoordinatorSpawnIdentity {
        model: model.map(str::to_string),
        provider_key: provider_key.map(str::to_string),
        route_api_method: route_api_method.map(str::to_string),
        is_canary: false,
    }
}

fn provider(name: &str, models: &[&str]) -> LiveProvider {
    LiveProvider {
        session_key: (name == "copilot").then(|| name.to_string()),
        models: models.iter().map(|model| (*model).to_string()).collect(),
    }
}

#[test]
fn resolve_swarm_spawn_model_prefers_configured_model_over_coordinator_model() {
    let selection = resolve_swarm_spawn_selection(
        None,
        Some("openai/gpt-5.4@OpenAI".to_string()),
        &coordinator_identity(
            Some("nvidia/llama-3.3-nemotron-super-49b-v1"),
            Some("nvidia"),
            Some("openai-compatible:nvidia-nim"),
        ),
        &provider("mock", &[]),
        &family(),
    );

    assert_eq!(selection.model.as_deref(), Some("openai/gpt-5.4@OpenAI"));
    assert_eq!(selection.provider_key.as_deref(), Some("openrouter"));
    // A different configured model must not inherit the coordinator's route.
    assert_eq!(selection.route_api_method, None);
}

#[test]
fn resolve_swarm_spawn_model_inherits_coordinator_when_unconfigured() {
    let selection = resolve_swarm_spawn_selection(
        None,
        None,
        &coordinator_identity(
            Some("nvidia/llama-3.3-nemotron-super-49b-v1"),
            Some("nvidia"),
            Some("openai-compatible:nvidia-nim"),
        ),
        &provider("mock", &[]),
        &family(),
    );

    assert_eq!(
        selection.model.as_deref(),
        Some("nvidia/llama-3.3-nemotron-super-49b-v1")
    );
    assert_eq!(selection.provider_key.as_deref(), Some("nvidia"));
    assert_eq!(
        selection.route_api_method.as_deref(),
        Some("openai-compatible:nvidia-nim")
    );
}

#[test]
fn resolve_swarm_spawn_model_inherits_coordinator_auth_route_for_oauth_vs_api() {
    // A coordinator on the API key route must spawn agents on the same route,
    // not on the OAuth one that the configuration defaults to.
    let selection = resolve_swarm_spawn_selection(
        None,
        None,
        &coordinator_identity(
            Some(family_id("-opus-4-6").as_str()),
            Some(family_id("-api").as_str()),
            Some(family_id("-api").as_str()),
        ),
        &provider("mock", &[]),
        &family(),
    );

    assert_eq!(selection.model.as_deref(), Some(family_id("-opus-4-6").as_str()));
    assert_eq!(selection.provider_key.as_deref(), Some(family_id("-api").as_str()));
    assert_eq!(selection.route_api_method.as_deref(), Some(family_id("-api").as_str()));
}

#[test]
fn resolve_swarm_spawn_model_keeps_provider_key_when_config_matches_coordinator() {
    let selection = resolve_swarm_spawn_selection(
        None,
        Some("custom-model".to_string()),
        &coordinator_identity(
            Some("custom-model"),
            Some("custom-provider"),
            Some("custom-route"),
        ),
        &provider("mock", &[]),
        &family(),
    );

    assert_eq!(selection.model.as_deref(), Some("custom-model"));
    assert_eq!(selection.provider_key.as_deref(), Some("custom-provider"));
    assert_eq!(selection.route_api_method.as_deref(), Some("custom-route"));
}

#[test]
fn resolve_swarm_spawn_model_openai_api_prefix_pins_api_route_over_coordinator() {
    // `agents.swarm_model = "openai-api:gpt-5.5"` must spawn agents on GPT-5.5
    // via the OpenAI API key route, regardless of the coordinator's model/auth.
    let selection = resolve_swarm_spawn_selection(
        None,
        Some("openai-api:gpt-5.5".to_string()),
        &coordinator_identity(
            Some(family_id("-opus-4-8").as_str()),
            Some(family_id("-oauth").as_str()),
            Some(family_id("-oauth").as_str()),
        ),
        &provider("mock", &[]),
        &family(),
    );

    assert_eq!(selection.model.as_deref(), Some("gpt-5.5"));
    assert_eq!(selection.provider_key.as_deref(), Some("openai-api-key"));
    assert_eq!(
        selection.route_api_method.as_deref(),
        Some("openai-api-key")
    );
}

#[test]
fn resolve_swarm_spawn_model_auth_route_prefixes_pin_expected_routes() {
    for (configured, expected_model, expected_key) in [
        ("openai-api:gpt-5.5", "gpt-5.5", "openai-api-key"),
        ("openai-oauth:gpt-5.5", "gpt-5.5", "openai-oauth"),
        (
            (family_id("-api:") + &family_id("-opus-4-8")).as_str(),
            family_id("-opus-4-8").as_str(),
            "anthropic-api-key",
        ),
        (
            (family_id("-oauth:") + &family_id("-opus-4-8")).as_str(),
            family_id("-opus-4-8").as_str(),
            family_id("-oauth").as_str(),
        ),
    ] {
        let selection = resolve_swarm_spawn_selection(
            None,
            Some(configured.to_string()),
            &coordinator_identity(
                Some("some-other-model"),
                Some("some-key"),
                Some("some-route"),
            ),
            &provider("mock", &[]),
        &family(),
        );
        assert_eq!(
            selection.model.as_deref(),
            Some(expected_model),
            "configured {configured:?} model",
        );
        assert_eq!(
            selection.provider_key.as_deref(),
            Some(expected_key),
            "configured {configured:?} provider_key",
        );
        assert_eq!(
            selection.route_api_method.as_deref(),
            Some(expected_key),
            "configured {configured:?} route_api_method",
        );
    }
}

#[test]
fn resolve_swarm_spawn_model_inherit_sentinel_uses_coordinator_model() {
    for sentinel in ["inherit", "INHERIT", "coordinator", " inherit ", ""] {
        let selection = resolve_swarm_spawn_selection(
            None,
            Some(sentinel.to_string()),
            &coordinator_identity(
                Some("nvidia/llama-3.3-nemotron-super-49b-v1"),
                Some("nvidia"),
                Some("openai-compatible:nvidia-nim"),
            ),
            &provider("mock", &[]),
        &family(),
        );

        assert_eq!(
            selection.model.as_deref(),
            Some("nvidia/llama-3.3-nemotron-super-49b-v1"),
            "sentinel {sentinel:?} should inherit coordinator model",
        );
        assert_eq!(
            selection.provider_key.as_deref(),
            Some("nvidia"),
            "sentinel {sentinel:?} should inherit coordinator provider key",
        );
        assert_eq!(
            selection.route_api_method.as_deref(),
            Some("openai-compatible:nvidia-nim"),
            "sentinel {sentinel:?} should inherit coordinator auth route",
        );
    }
}

#[test]
fn resolve_swarm_spawn_model_requested_model_overrides_configured_pin() {
    for requested in ["openai-api:gpt-5.5", "  openai-api:gpt-5.5 \t"] {
        let selection = resolve_swarm_spawn_selection(
            Some(requested.to_string()),
            Some((family_id("-oauth:") + &family_id("-opus-4-8"))),
            &coordinator_identity(
                Some(family_id("-fable-5").as_str()),
                Some(family_id("-oauth").as_str()),
                Some(family_id("-oauth").as_str()),
            ),
            &provider("mock", &[]),
        &family(),
        );

        assert_eq!(selection.model.as_deref(), Some("gpt-5.5"));
        assert_eq!(selection.provider_key.as_deref(), Some("openai-api-key"));
        assert_eq!(
            selection.route_api_method.as_deref(),
            Some("openai-api-key")
        );
    }
}

#[test]
fn resolve_swarm_spawn_model_requested_inherit_overrides_configured_pin() {
    for requested in [
        "inherit",
        "INHERIT",
        "coordinator",
        " COORDINATOR ",
        " inherit ",
    ] {
        let selection = resolve_swarm_spawn_selection(
            Some(requested.to_string()),
            Some("openai-api:gpt-5.5".to_string()),
            &coordinator_identity(
                Some(family_id("-fable-5").as_str()),
                Some(family_id("-api").as_str()),
                Some(family_id("-api").as_str()),
            ),
            &provider("mock", &[]),
        &family(),
        );

        assert_eq!(selection.model.as_deref(), Some(family_id("-fable-5").as_str()));
        assert_eq!(selection.provider_key.as_deref(), Some(family_id("-api").as_str()));
        assert_eq!(selection.route_api_method.as_deref(), Some(family_id("-api").as_str()));
    }
}

#[test]
fn resolve_swarm_spawn_model_requested_matching_coordinator_model_keeps_route() {
    let selection = resolve_swarm_spawn_selection(
        Some(" custom-model ".to_string()),
        Some("openai-api:gpt-5.5".to_string()),
        &coordinator_identity(
            Some("custom-model"),
            Some("custom-provider"),
            Some("custom-route"),
        ),
        &provider("mock", &[]),
        &family(),
    );

    assert_eq!(selection.model.as_deref(), Some("custom-model"));
    assert_eq!(selection.provider_key.as_deref(), Some("custom-provider"));
    assert_eq!(selection.route_api_method.as_deref(), Some("custom-route"));
}

#[test]
fn resolve_swarm_spawn_model_blank_requested_model_falls_back_to_config() {
    for requested in ["", "   ", "\t\n"] {
        let selection = resolve_swarm_spawn_selection(
            Some(requested.to_string()),
            Some("openai-api:gpt-5.5".to_string()),
            &coordinator_identity(
                Some(family_id("-fable-5").as_str()),
                Some(family_id("-oauth").as_str()),
                Some(family_id("-oauth").as_str()),
            ),
            &provider("mock", &[]),
        &family(),
        );

        assert_eq!(selection.model.as_deref(), Some("gpt-5.5"));
        assert_eq!(selection.provider_key.as_deref(), Some("openai-api-key"));
        assert_eq!(
            selection.route_api_method.as_deref(),
            Some("openai-api-key")
        );
    }
}

#[test]
fn resolve_swarm_spawn_model_omitted_request_trims_configured_model() {
    let selection = resolve_swarm_spawn_selection(
        None,
        Some(" \topenai-api:gpt-5.5 \n".to_string()),
        &coordinator_identity(
            Some(family_id("-fable-5").as_str()),
            Some(family_id("-oauth").as_str()),
            Some(family_id("-oauth").as_str()),
        ),
        &provider("mock", &[]),
        &family(),
    );

    assert_eq!(selection.model.as_deref(), Some("gpt-5.5"));
    assert_eq!(selection.provider_key.as_deref(), Some("openai-api-key"));
    assert_eq!(
        selection.route_api_method.as_deref(),
        Some("openai-api-key")
    );
}

#[test]
fn resolve_swarm_spawn_model_blank_requested_model_inherits_when_unconfigured() {
    let selection = resolve_swarm_spawn_selection(
        Some(" \t\n".to_string()),
        None,
        &coordinator_identity(
            Some("custom-model"),
            Some("custom-provider"),
            Some("custom-route"),
        ),
        &provider("mock", &[]),
        &family(),
    );

    assert_eq!(selection.model.as_deref(), Some("custom-model"));
    assert_eq!(selection.provider_key.as_deref(), Some("custom-provider"));
    assert_eq!(selection.route_api_method.as_deref(), Some("custom-route"));
}

#[test]
fn refreshed_copilot_route_owns_bare_swarm_model_before_static_family_guess() {
    let selection = resolve_swarm_spawn_selection(
        None,
        Some("gpt-6-astra".to_string()),
        &coordinator_identity(Some("gpt-5.6-sol"), Some("copilot"), Some("copilot")),
        &provider("copilot", &["gpt-6-astra"]),
        &family(),
    );

    assert_eq!(selection.model.as_deref(), Some("gpt-6-astra"));
    assert_eq!(selection.provider_key.as_deref(), Some("copilot"));
    assert_eq!(selection.route_api_method.as_deref(), Some("copilot"));
}

#[test]
fn requested_refreshed_copilot_route_owns_bare_model_over_configured_pin() {
    let selection = resolve_swarm_spawn_selection(
        Some("gpt-6-astra".to_string()),
        Some((family_id("-oauth:") + &family_id("-opus-4-8"))),
        &coordinator_identity(Some("gpt-5.6-sol"), Some("copilot"), Some("copilot")),
        &provider("copilot", &["gpt-6-astra"]),
        &family(),
    );

    assert_eq!(selection.model.as_deref(), Some("gpt-6-astra"));
    assert_eq!(selection.provider_key.as_deref(), Some("copilot"));
    assert_eq!(selection.route_api_method.as_deref(), Some("copilot"));
}

#[test]
fn bare_swarm_model_keeps_static_fallback_without_matching_live_route() {
    let selection = resolve_swarm_spawn_selection(
        None,
        Some("gpt-6-astra".to_string()),
        &coordinator_identity(Some("gpt-5.6-sol"), Some("copilot"), Some("copilot")),
        &provider("copilot", &["some-other-model"]),
        &family(),
    );

    assert_eq!(selection.model.as_deref(), Some("gpt-6-astra"));
    assert_eq!(selection.provider_key.as_deref(), Some("openai"));
    assert_eq!(selection.route_api_method, None);
}

#[test]
fn another_runtime_catalog_cannot_capture_a_bare_swarm_model() {
    let selection = resolve_swarm_spawn_selection(
        None,
        Some("gpt-6-astra".to_string()),
        &coordinator_identity(
            Some(family_id("-opus-4-8").as_str()),
            Some(family_id("").as_str()),
            Some(family_id("-oauth").as_str()),
        ),
        &provider("anthropic", &[family_id("-opus-4-8").as_str()]),
        &family(),
    );

    assert_eq!(selection.provider_key.as_deref(), Some("openai"));
    assert_eq!(selection.route_api_method, None);
}

#[test]
fn claude_models_fall_back_to_the_claude_family() {
    let selection = resolve_swarm_spawn_selection(
        None,
        Some(family_id("-opus-4-8")),
        &coordinator_identity(Some("gpt-5.6-sol"), Some("copilot"), Some("copilot")),
        &provider("openai", &[]),
        &family(),
    );

    assert_eq!(selection.model.as_deref(), Some(family_id("-opus-4-8").as_str()));
    assert_eq!(selection.provider_key.as_deref(), Some(family_id("").as_str()));
    assert_eq!(selection.route_api_method, None);
}

#[test]
fn nothing_chosen_and_nothing_to_inherit_selects_nothing() {
    let selection = resolve_swarm_spawn_selection(
        None,
        None,
        &coordinator_identity(None, None, None),
        &provider("mock", &[]),
        &family(),
    );

    assert_eq!(selection.model, None);
    assert_eq!(selection.provider_key, None);
    assert_eq!(selection.route_api_method, None);
}

#[test]
fn a_live_route_prefers_the_given_key_and_method() {
    let live = provider("copilot", &["gpt-6-astra"]);
    assert_eq!(
        route_for_model(&live, "gpt-6-astra", Some("mine"), Some("api")),
        Some(("mine".to_string(), Some("api".to_string())))
    );
    assert_eq!(
        route_for_model(&live, "gpt-6-astra", None, None),
        Some(("copilot".to_string(), Some("copilot".to_string())))
    );
    assert_eq!(
        route_for_model(&live, "other", Some("mine"), None),
        None
    );
    let unnamed = provider("mock", &["gpt-6-astra"]);
    assert_eq!(route_for_model(&unnamed, "gpt-6-astra", None, None), None);
}

#[test]
fn a_coordinator_without_a_key_keeps_the_live_route() {
    let coordinator = coordinator_identity(Some("gpt-5.6-sol"), None, None);
    let select = |live: &LiveProvider| {
        resolve_swarm_spawn_selection(
            None,
            Some("gpt-6-astra".to_string()),
            &coordinator,
            live,
            &family(),
        )
    };
    let selection = select(&provider("copilot", &["gpt-6-astra"]));
    assert_eq!(selection.provider_key.as_deref(), Some("copilot"));
    assert_eq!(selection.route_api_method.as_deref(), Some("copilot"));

    // Without a key of its own the provider decides nothing.
    let selection = select(&provider("mock", &["gpt-6-astra"]));
    assert_eq!(selection.provider_key.as_deref(), Some("openai"));
    assert_eq!(selection.route_api_method, None);
}
