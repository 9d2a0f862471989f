use ironauth_oidc::forward_auth::{trusted_header_names, Identity};
use ironauth_oidc::forward_auth_route::{
    check, decide, session_identity, status, trusted_headers, CheckStep, CHALLENGE_HEADER,
    MUST_DELETE_HEADER,
};
use ironauth_oidc::forward_auth_rules::{
    access_rules_from_config, configured_layers, AccessActionConfig, AccessRuleConfig,
    ForwardAuthConfig, ForwardAuthRuntime, HeaderMatchConfig, ProxyDialectConfig, RateLayer, RateLimitConfig,
};
use ironauth_oidc::rules::RequestFacts;

fn config(action: AccessActionConfig, acr: Option<&str>) -> ForwardAuthConfig {
    ForwardAuthConfig {
        enabled: true,
        dialect: ProxyDialectConfig::ForwardAuth,
        rules: vec![AccessRuleConfig {
            name: "r".to_owned(),
            action,
            acr: acr.map(str::to_owned),
            ..AccessRuleConfig::default()
        }],
        ..ForwardAuthConfig::default()
    }
}

fn runtime(action: AccessActionConfig, acr: Option<&str>) -> ForwardAuthRuntime {
    ForwardAuthRuntime::from_config(&config(action, acr), &[])
        .expect("converts")
        .expect("enabled")
}

fn headers() -> Vec<(String, String)> {
    [
        ("x-forwarded-method", "GET"),
        ("x-forwarded-host", "app.test:8443"),
        ("x-forwarded-uri", "/a?b"),
        ("remote-user", "root"),
    ]
    .iter()
    .map(|(name, value)| ((*name).to_owned(), (*value).to_owned()))
    .collect()
}

#[test]
fn a_check_is_answered_before_it_is_decided_where_it_can_be() {
    let surface = runtime(AccessActionConfig::Allow, None);
    let code = |step: CheckStep| match step {
        CheckStep::Answer(reply) => reply.status,
        CheckStep::Decide(..) => 0,
    };
    assert_eq!(code(check(None, true, "t", "e", true, "GET", &headers())), 404);
    assert_eq!(code(check(Some(&surface), false, "t", "e", true, "GET", &headers())), 404);
    assert_eq!(code(check(Some(&surface), true, "t", "e", false, "GET", &headers())), 403);
    assert_eq!(code(check(Some(&surface), true, "t", "e", true, "GET", &[])), 400);
    match check(Some(&surface), true, "t", "e", true, "GET", &headers()) {
        CheckStep::Decide(facts, names) => {
            assert_eq!(facts.path, "/a");
            assert_eq!(facts.host, "app.test");
            assert_eq!(names, vec!["remote-user".to_owned()]);
        }
        CheckStep::Answer(reply) => panic!("expected a decision, got {}", reply.status),
    }
}

fn facts() -> RequestFacts {
    RequestFacts {
        method: "GET".to_owned(),
        host: "app.test".to_owned(),
        path: "/a".to_owned(),
        ..RequestFacts::default()
    }
}

#[test]
fn a_decision_is_answered_with_its_headers() {
    let identity: Identity = session_identity("alice");
    let allowed = decide(
        &runtime(AccessActionConfig::Allow, None),
        facts(),
        vec!["remote-user".to_owned()],
        Some(&identity),
    );
    assert_eq!(allowed.status, 200);
    assert!(allowed
        .headers
        .contains(&("Remote-User".to_owned(), "alice".to_owned())));
    assert!(allowed
        .headers
        .contains(&(MUST_DELETE_HEADER.to_owned(), "remote-user".to_owned())));
    let denied = decide(&runtime(AccessActionConfig::Deny, None), facts(), Vec::new(), None);
    assert_eq!(denied.status, 403);
    let stepped = decide(
        &runtime(AccessActionConfig::StepUp, Some("mfa")),
        facts(),
        Vec::new(),
        Some(&identity),
    );
    assert_eq!(stepped.status, 401);
    assert!(stepped.headers.iter().any(|(name, _)| name == CHALLENGE_HEADER));
    assert_eq!(status(418).status, 418);
    assert_eq!(trusted_headers(), trusted_header_names());
}

#[test]
fn rules_are_shared_between_surfaces() {
    let rules = access_rules_from_config(&config(AccessActionConfig::Deny, None), &[])
        .expect("converts");
    let surface = ForwardAuthRuntime::from_rules(&config(AccessActionConfig::Deny, None), rules);
    let surface = surface.expect("converts").expect("enabled");
    assert_eq!(decide(&surface, facts(), Vec::new(), None).status, 403);
}

#[test]
fn an_explanation_has_the_answer_of_every_rule() {
    let rule = |name: &str, prefix: &str, action: AccessActionConfig| AccessRuleConfig {
        name: name.to_owned(),
        path_prefix: Some(prefix.to_owned()),
        action,
        ..AccessRuleConfig::default()
    };
    let config = ForwardAuthConfig {
        enabled: true,
        dialect: ProxyDialectConfig::ForwardAuth,
        rules: vec![
            rule("other", "/b", AccessActionConfig::Deny),
            rule("mine", "/a", AccessActionConfig::Allow),
            rule("late", "/", AccessActionConfig::Deny),
            AccessRuleConfig {
                headers: vec![HeaderMatchConfig {
                    name: "remote-user".to_owned(),
                    value: "alice".to_owned(),
                }],
                ..rule("claimed", "/", AccessActionConfig::Allow)
            },
        ],
        decision_cache_ttl_secs: Some(30),
        ..ForwardAuthConfig::default()
    };
    let surface = ForwardAuthRuntime::from_config(&config, &[])
        .expect("converts")
        .expect("enabled");
    assert_eq!(surface.decision_cache_ttl_secs(), Some(30));
    let mut claimed = facts();
    claimed.headers.insert("remote-user".to_owned(), "alice".to_owned());
    let answers: Vec<(String, bool)> = surface
        .explain(&claimed)
        .answers
        .into_iter()
        .map(|answer| (answer.rule, answer.matches))
        .collect();
    assert_eq!(
        answers,
        vec![
            ("other".to_owned(), false),
            ("mine".to_owned(), true),
            ("late".to_owned(), true),
            ("claimed".to_owned(), false),
        ]
    );
    let decided = surface.evaluate(facts(), None).decision;
    assert_eq!(decided.matched.as_deref(), Some("mine"));
}

#[test]
fn each_limited_layer_has_its_own_limit() {
    let none: RateLimitConfig<u8> = RateLimitConfig {
        per_ip: None,
        per_tenant: None,
        per_environment: None,
        per_client: None,
    };
    assert!(configured_layers(none).is_empty());
    assert_eq!(
        configured_layers(RateLimitConfig {
            per_ip: Some(1),
            per_tenant: None,
            per_environment: Some(3),
            per_client: Some(4),
        }),
        vec![
            (RateLayer::PerIp, 1),
            (RateLayer::PerEnvironment, 3),
            (RateLayer::PerClient, 4),
        ]
    );
}
