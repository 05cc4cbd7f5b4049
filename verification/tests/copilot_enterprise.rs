//! Deployments, seats and the endpoints that are discovered for them.

use jcode_copilot::copilot_catalog::CopilotAccountType;
use jcode_copilot::copilot_enterprise::{
    api_base_for, clear_discovered_api_base, clear_discovered_api_base_for, current_deployment,
    deployment_in, discovered_api_base_for, ensure_api_base, ensure_request_api_base,
    load_persisted_deployment, normalize_domain, record_discovered_api_base_for,
    record_discovered_api_base_if_current, record_seat, save_deployment, token_cache_key,
    user_info_failure, user_info_url, CopilotDeployment, DiscoveredApiBases, Discovery,
    DomainError, COPILOT_ENTERPRISE_URL_ENV,
};
use jcode_copilot::json::{object1, Json};
use jcode_copilot::wire::{read_seat, seat_in};

#[test]
fn dotcom_urls_match_the_public_endpoints() {
    let deployment = CopilotDeployment::DotCom;
    assert_eq!(
        deployment.device_code_url(),
        "https://github.com/login/device/code"
    );
    assert_eq!(
        deployment.access_token_url(),
        "https://github.com/login/oauth/access_token"
    );
    assert_eq!(deployment.api_base(), "https://api.githubcopilot.com");
    assert_eq!(deployment.rest_api_base(), "https://api.github.com");
    assert!(!deployment.is_enterprise());
}

#[test]
fn enterprise_urls_are_derived_from_the_domain() {
    let deployment = CopilotDeployment::from_domain_input("company.ghe.com").unwrap();
    assert_eq!(
        deployment.device_code_url(),
        "https://company.ghe.com/login/device/code"
    );
    assert_eq!(
        deployment.access_token_url(),
        "https://company.ghe.com/login/oauth/access_token"
    );
    assert_eq!(deployment.api_base(), "https://copilot-api.company.ghe.com");
    assert_eq!(deployment.rest_api_base(), "https://api.company.ghe.com");
    assert_eq!(deployment.host(), "company.ghe.com");
    assert!(deployment.is_enterprise());
}

#[test]
fn domain_input_accepts_the_forms_users_paste() {
    for input in [
        "company.ghe.com",
        "https://company.ghe.com",
        "http://company.ghe.com",
        "https://company.ghe.com/",
        "  https://Company.GHE.com/  ",
        "https://company.ghe.com/some/path",
    ] {
        assert_eq!(
            normalize_domain(input).unwrap(),
            "company.ghe.com",
            "input: {input:?}"
        );
    }
}

#[test]
fn domain_input_rejects_nonsense() {
    for input in ["", "   ", "not a domain", "localhost", "user@company.com"] {
        assert!(normalize_domain(input).is_err(), "input: {input:?}");
    }
}

#[test]
fn a_port_is_rejected_because_it_cannot_form_a_copilot_api_host() {
    // `copilot-api.company.ghe.com:8443` is not a hostname.
    assert!(normalize_domain("company.ghe.com:8443").is_err());
}

#[test]
fn naming_github_com_is_not_an_enterprise_deployment() {
    for input in ["github.com", "https://github.com", "api.github.com"] {
        assert_eq!(
            CopilotDeployment::from_domain_input(input).unwrap(),
            CopilotDeployment::DotCom,
            "input: {input:?}"
        );
    }
}

#[test]
fn each_domain_fault_has_its_own_error() {
    assert_eq!(normalize_domain("   "), Err(DomainError::Empty));
    assert_eq!(
        normalize_domain("localhost"),
        Err(DomainError::Invalid("localhost".to_string()))
    );
    assert_eq!(
        normalize_domain("company.ghe.com:8443"),
        Err(DomainError::Port("company.ghe.com:8443".to_string()))
    );
    assert_eq!(
        DomainError::Empty.to_text(),
        "Enterprise domain must not be empty"
    );
    assert_eq!(
        DomainError::Invalid("localhost".to_string()).to_text(),
        "'localhost' is not a valid domain (expected something like 'company.ghe.com')"
    );
    assert_eq!(
        DomainError::Port("a.b:1".to_string()).to_text(),
        "Enterprise domain must not include a port or scheme: 'a.b:1'"
    );
}

#[test]
fn a_normal_domain_is_its_own_normal_form() {
    let plain = normalize_domain("https://Company.GHE.com./x").unwrap();
    assert_eq!(plain, "company.ghe.com");
    assert_eq!(normalize_domain(&plain).unwrap(), plain);
}

#[test]
fn env_override_selects_the_enterprise_deployment() {
    assert_eq!(COPILOT_ENTERPRISE_URL_ENV, "GITHUB_COPILOT_ENTERPRISE_URL");
    assert_eq!(
        current_deployment(Some("https://company.ghe.com/"), None),
        CopilotDeployment::Enterprise("company.ghe.com".to_string())
    );
}

#[test]
fn a_blank_env_override_means_dotcom_even_with_a_persisted_domain() {
    let saved = save_deployment(&CopilotDeployment::Enterprise("company.ghe.com".into()));
    assert_eq!(
        current_deployment(Some("  "), Some(&saved)),
        CopilotDeployment::DotCom
    );
}

#[test]
fn a_saved_deployment_survives_into_the_next_session() {
    assert_eq!(current_deployment(None, None), CopilotDeployment::DotCom);
    let enterprise = CopilotDeployment::Enterprise("company.ghe.com".to_string());
    let saved = save_deployment(&enterprise);
    assert_eq!(current_deployment(None, Some(&saved)), enterprise);

    // Logging back in on dotcom must clear the enterprise domain, not leave a
    // stale one that would send dotcom tokens to the enterprise endpoint.
    let saved = save_deployment(&CopilotDeployment::DotCom);
    assert_eq!(
        current_deployment(None, Some(&saved)),
        CopilotDeployment::DotCom
    );
}

#[test]
fn a_deployment_is_saved_over_several_lines() {
    assert_eq!(
        save_deployment(&CopilotDeployment::Enterprise("company.ghe.com".into())),
        "{\n  \"enterprise_domain\": \"company.ghe.com\"\n}"
    );
    assert_eq!(save_deployment(&CopilotDeployment::DotCom), "{}");
}

#[test]
fn an_unreadable_deployment_file_falls_back_to_dotcom() {
    assert!(load_persisted_deployment("{ not json").is_none());
    assert_eq!(
        current_deployment(None, Some("{ not json")),
        CopilotDeployment::DotCom
    );
}

#[test]
fn without_the_override_everything_still_targets_dotcom() {
    let deployment = current_deployment(None, None);
    assert_eq!(deployment, CopilotDeployment::DotCom);
    assert_eq!(deployment.api_base(), "https://api.githubcopilot.com");
}

#[test]
fn a_record_with_a_bad_domain_names_no_deployment() {
    assert_eq!(
        deployment_in(&object1("enterprise_domain", Json::text("company.ghe.com"))),
        Some(CopilotDeployment::Enterprise("company.ghe.com".to_string()))
    );
    assert_eq!(
        deployment_in(&object1("enterprise_domain", Json::text("localhost"))),
        None
    );
    assert_eq!(deployment_in(&object1("enterprise_domain", Json::Null)), None);
}

#[test]
fn deployments_are_shown_by_their_host() {
    assert_eq!(CopilotDeployment::DotCom.to_text(), "github.com");
    let enterprise = CopilotDeployment::Enterprise("company.ghe.com".to_string());
    assert_eq!(enterprise.to_text(), "company.ghe.com (enterprise)");
    assert_eq!(enterprise.enterprise_domain(), Some("company.ghe.com"));
    assert_eq!(CopilotDeployment::DotCom.enterprise_domain(), None);
    assert_eq!(CopilotDeployment::default(), CopilotDeployment::DotCom);
}

/// A `/copilot_internal/user` answer for an enterprise seat held on a personal
/// github.com account.
const REAL_ENTERPRISE_SEAT: &str = r#"{
  "login": "someone",
  "access_type_sku": "copilot_enterprise_seat_quota",
  "copilot_plan": "enterprise",
  "chat_enabled": true,
  "organization_login_list": ["ExampleCorp"],
  "endpoints": {
    "api": "https://api.enterprise.githubcopilot.com",
    "proxy": "https://proxy.enterprise.githubcopilot.com"
  }
}"#;

#[test]
fn an_enterprise_seat_reports_its_own_api_endpoint() {
    let info = read_seat(REAL_ENTERPRISE_SEAT).unwrap();
    assert_eq!(info.copilot_plan, "enterprise");
    assert_eq!(
        info.api_base(),
        Some("https://api.enterprise.githubcopilot.com")
    );
    assert_eq!(info.account_type(), CopilotAccountType::Enterprise);
    assert_eq!(
        info.organization_login_list,
        vec!["ExampleCorp".to_string()]
    );
    assert_eq!(info.login, "someone");
    assert_eq!(info.access_type_sku, "copilot_enterprise_seat_quota");
    assert!(info.chat_enabled);
}

#[test]
fn a_seat_without_endpoints_falls_back_to_the_deployment_default() {
    let info = read_seat(r#"{"login":"someone","copilot_plan":"individual"}"#).unwrap();
    assert_eq!(info.api_base(), None);
    assert_eq!(info.account_type(), CopilotAccountType::Individual);
}

#[test]
fn a_non_https_endpoint_is_ignored() {
    // Never downgrade to plaintext on the say-so of a response body.
    let info = read_seat(r#"{"endpoints":{"api":"http://evil.example"}}"#).unwrap();
    assert_eq!(info.api_base(), None);
}

#[test]
fn plans_are_told_apart() {
    for (plan, kind) in [
        ("enterprise", CopilotAccountType::Enterprise),
        (" Business ", CopilotAccountType::Business),
        ("pro_plus", CopilotAccountType::Individual),
        ("free", CopilotAccountType::Individual),
        ("mystery", CopilotAccountType::Unknown),
    ] {
        let seat = seat_in(&object1("copilot_plan", Json::text(plan))).unwrap();
        assert_eq!(seat.account_type(), kind, "{plan}");
    }
    assert!(read_seat("not json").is_none());
    assert!(seat_in(&object1("copilot_plan", Json::Bool(true))).is_none());
}

#[test]
fn the_discovered_endpoint_wins_over_the_constructed_one() {
    let mut known = DiscoveredApiBases::new();
    let dotcom = CopilotDeployment::DotCom;

    // Before discovery: the dotcom default.
    assert_eq!(
        api_base_for(&known, "token", &dotcom),
        "https://api.githubcopilot.com"
    );

    // After: whatever GitHub said, which is the whole point.
    record_discovered_api_base_for(
        &mut known,
        "token",
        "https://api.enterprise.githubcopilot.com/",
    );
    assert_eq!(
        api_base_for(&known, "token", &dotcom),
        "https://api.enterprise.githubcopilot.com"
    );

    clear_discovered_api_base(&mut known);
    assert_eq!(
        api_base_for(&known, "token", &dotcom),
        "https://api.githubcopilot.com"
    );
}

#[test]
fn discovery_also_wins_over_an_explicit_enterprise_domain() {
    // A tenant that reports an endpoint knows better than the
    // `copilot-api.<domain>` convention.
    let mut known = DiscoveredApiBases::new();
    let company = current_deployment(Some("company.ghe.com"), None);

    assert_eq!(
        api_base_for(&known, "token", &company),
        "https://copilot-api.company.ghe.com"
    );
    record_discovered_api_base_for(&mut known, "token", "https://copilot.company.ghe.com");
    assert_eq!(
        api_base_for(&known, "token", &company),
        "https://copilot.company.ghe.com"
    );
}

#[test]
fn model_requests_use_the_enterprise_base_url() {
    let known = DiscoveredApiBases::new();
    let enterprise = api_base_for(
        &known,
        "token",
        &current_deployment(Some("https://company.ghe.com/"), None),
    );
    let dotcom = api_base_for(&known, "token", &current_deployment(Some(""), None));

    assert_eq!(enterprise, "https://copilot-api.company.ghe.com");
    assert_eq!(dotcom, "https://api.githubcopilot.com");
}

#[test]
fn one_account_never_borrows_the_endpoint_of_another() {
    let mut known = DiscoveredApiBases::new();
    record_discovered_api_base_for(&mut known, "a", "https://a.example");
    record_discovered_api_base_for(&mut known, "b", "https://b.example");
    record_discovered_api_base_for(&mut known, "c", "  / ");
    clear_discovered_api_base_for(&mut known, "a");
    assert_eq!(discovered_api_base_for(&known, "a"), None);
    assert_eq!(
        discovered_api_base_for(&known, "b").as_deref(),
        Some("https://b.example")
    );
    assert_eq!(discovered_api_base_for(&known, "c"), None);
}

#[test]
fn forgetting_outdates_a_running_discovery() {
    let mut known = DiscoveredApiBases::new();
    let began = known.generation();
    clear_discovered_api_base_for(&mut known, "other");
    record_discovered_api_base_if_current(&mut known, "a", "https://late.example", began);
    assert_eq!(discovered_api_base_for(&known, "a"), None);
    let now = known.generation();
    assert_ne!(now, began);
    record_discovered_api_base_if_current(&mut known, "a", "https://new.example", now);
    assert_eq!(
        discovered_api_base_for(&known, "a").as_deref(),
        Some("https://new.example")
    );
}

#[test]
fn a_seat_lookup_ends_the_search() {
    let mut known = DiscoveredApiBases::new();
    let dotcom = CopilotDeployment::DotCom;
    assert_eq!(ensure_api_base(&known, "t", 0), Discovery::LookUp);
    let info = read_seat(REAL_ENTERPRISE_SEAT).unwrap();
    let generation = known.generation();
    record_seat(&mut known, "t", &info, &dotcom, generation);
    assert_eq!(
        ensure_api_base(&known, "t", 1),
        Discovery::Use("https://api.enterprise.githubcopilot.com".to_string())
    );
    assert_eq!(
        ensure_api_base(&known, "u", 3),
        Discovery::GiveUp(
            "Copilot credentials changed repeatedly during endpoint discovery".to_string()
        )
    );
    assert_eq!(
        ensure_request_api_base(None, &known, "t", &dotcom),
        "https://api.enterprise.githubcopilot.com"
    );
    assert_eq!(
        ensure_request_api_base(Some("https://x.example".to_string()), &known, "t", &dotcom),
        "https://x.example"
    );

    let plain = read_seat(r#"{"copilot_plan":"individual"}"#).unwrap();
    record_seat(&mut known, "u", &plain, &dotcom, generation);
    assert_eq!(
        discovered_api_base_for(&known, "u").as_deref(),
        Some("https://api.githubcopilot.com")
    );
}

#[test]
fn token_keys_are_digests_in_hexadecimal() {
    // The published SHA-256 of "abc".
    assert_eq!(
        token_cache_key("abc"),
        "ba7816bf8f01cfea414140de5dae2223b00361a396177a9cb410ff61f20015ad"
    );
    assert_ne!(token_cache_key("abd"), token_cache_key("abc"));
}

#[test]
fn seats_are_looked_up_at_the_rest_api() {
    assert_eq!(
        user_info_url(&CopilotDeployment::Enterprise("company.ghe.com".to_string())),
        "https://api.company.ghe.com/copilot_internal/user"
    );
    assert_eq!(
        user_info_failure("404 Not Found", "{}"),
        "Copilot seat lookup failed (HTTP 404 Not Found): {}"
    );
}

#[test]
fn records_may_come_as_lists_of_their_fields() {
    let saved = load_persisted_deployment(r#"["ghe.example.com"]"#).unwrap();
    assert_eq!(saved.enterprise_domain(), Some("ghe.example.com"));
    assert!(load_persisted_deployment("[]").is_none());
    assert!(load_persisted_deployment(r#"["ghe.example.com",1]"#).is_none());
    assert!(load_persisted_deployment(r#""ghe.example.com""#).is_none());

    let seat = read_seat(r#"["me","business","sku",true,["org"],["https://api.example"]]"#).unwrap();
    assert_eq!(seat.login, "me");
    assert_eq!(seat.copilot_plan, "business");
    assert_eq!(seat.access_type_sku, "sku");
    assert!(seat.chat_enabled);
    assert_eq!(seat.organization_login_list, ["org"]);
    assert_eq!(seat.api_base(), Some("https://api.example"));
    assert_eq!(read_seat(r#"["me"]"#).unwrap().copilot_plan, "");
    assert!(read_seat(r#"["me","b","s",true,[],null,7]"#).is_none());
}

#[test]
fn a_field_of_a_record_stands_only_once() {
    let twice = r#"{"enterprise_domain":"a.example","enterprise_domain":"b.example"}"#;
    assert!(load_persisted_deployment(twice).is_none());
    assert_eq!(
        current_deployment(None, Some(twice)),
        CopilotDeployment::DotCom
    );
    assert!(read_seat(r#"{"login":"a","login":"a"}"#).is_none());
    assert!(read_seat(r#"{"endpoints":{"api":null,"api":null}}"#).is_none());
    // A field that is not known may stand as often as it likes.
    assert_eq!(read_seat(r#"{"x":1,"login":"a","x":2}"#).unwrap().login, "a");
}

#[test]
fn what_a_record_does_not_know_is_passed_over() {
    let deep = format!("{}{}", "[".repeat(500), "]".repeat(500));
    for ignored in ["1e999", r#""\ud800""#, deep.as_str(), r#"{"a":[{}],"a":-0}"#] {
        let text = format!(" {{ \"x\" : {ignored} , \"enterprise_domain\" : \"a.example\" }} \n");
        let saved = load_persisted_deployment(&text).unwrap();
        assert_eq!(saved.enterprise_domain(), Some("a.example"));
        // The same is malformed where it is known.
        let text = format!("{{\"enterprise_domain\":{ignored}}}");
        assert!(load_persisted_deployment(&text).is_none());
    }
    for broken in [
        r#"{"enterprise_domain":"a.example",}"#,
        r#"{"enterprise_domain":"a.example"} x"#,
        r#"{"enterprise_domain":"a.example"#,
        r#"{"enterprise_domain" "a.example"}"#,
        r#"{enterprise_domain:"a.example"}"#,
        r#"{"enterprise_domain":"a.example" "x":1}"#,
        r#"["a.example",]"#,
        r#"{"x":tru,"enterprise_domain":"a.example"}"#,
        "",
    ] {
        assert!(load_persisted_deployment(broken).is_none(), "{broken}");
    }
    assert!(load_persisted_deployment("{}").is_none());
    assert!(load_persisted_deployment("null").is_none());
}
