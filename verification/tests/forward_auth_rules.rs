use ironauth_oidc::authn;
use ironauth_oidc::forward_auth;
use ironauth_oidc::forward_auth_rules::{
    observable_step_up_acrs, rule_set_from_config, unobservable_acr, AccessActionConfig,
    AccessRuleConfig, ConversionError, ForwardAuthConfig, ForwardAuthRuntime, HeaderMatchConfig,
    ProxyDialectConfig, SubjectStateConfig,
};
use ironauth_oidc::rules;
use ironauth_oidc::rules::{Action, Criterion, RuleSet, SubjectCheck};
use ironauth_oidc::step_up;

fn rule_set_from_config_test(cfg: &ForwardAuthConfig) -> Result<RuleSet, ConversionError> {
    rule_set_from_config(cfg, &[])
}

fn rule(name: &str) -> AccessRuleConfig {
    AccessRuleConfig {
        name: name.to_owned(),
        action: AccessActionConfig::Deny,
        ..AccessRuleConfig::default()
    }
}

fn enabled(rules: Vec<AccessRuleConfig>) -> ForwardAuthConfig {
    ForwardAuthConfig {
        enabled: true,
        dialect: ProxyDialectConfig::default(),
        rules,
        ..ForwardAuthConfig::default()
    }
}

#[test]
fn a_rule_reading_groups_or_roles_is_refused_with_the_field_named() {
    for (field, mutate) in [
        (
            "subject_in_group",
            (|r: &mut AccessRuleConfig| r.subject_in_group = Some("admins".to_owned()))
                as fn(&mut AccessRuleConfig),
        ),
        ("subject_has_role", |r: &mut AccessRuleConfig| {
            r.subject_has_role = Some("editor".to_owned());
        }),
    ] {
        let mut cfg = rule("gate");
        mutate(&mut cfg);

        let error = rule_set_from_config_test(&enabled(vec![cfg]))
            .expect_err("a rule this build cannot evaluate is refused");

        match &error {
            ConversionError::Unsupported {
                rule, field: named, ..
            } => {
                assert_eq!(*named, field);
                assert_eq!(rule, "gate", "the refusal names the rule an operator wrote");
            }
            other @ (ConversionError::Pattern { .. } | ConversionError::UnknownAcr { .. }) => {
                panic!("expected an Unsupported refusal, got {other:?}")
            }
        }
        assert!(
            error.message().contains(field),
            "the rendered error must name the field: {error:?}"
        );
    }
}

#[test]
fn a_rule_using_only_supported_criteria_converts() {
    let cfg = AccessRuleConfig {
        name: "own resource".to_owned(),
        action: AccessActionConfig::Allow,
        methods: vec!["GET".to_owned()],
        host: Some("app.example".to_owned()),
        path_prefix: Some("/u".to_owned()),
        path_matches: Some("^/u/(?<user>[^/]+)/.*$".to_owned()),
        headers: vec![HeaderMatchConfig {
            name: "x-env".to_owned(),
            value: "prod".to_owned(),
        }],
        subject_state: Some(SubjectStateConfig::Authenticated),
        subject_equals_capture: Some("user".to_owned()),
        ..AccessRuleConfig::default()
    };

    let set =
        rule_set_from_config_test(&enabled(vec![cfg])).expect("supported criteria convert");
    let rules = set.rules();

    assert_eq!(rules.len(), 1);
    assert_eq!(rules[0].name, "own resource");
    assert!(matches!(rules[0].action, Action::Allow));

    let kinds: Vec<String> = rules[0]
        .criteria
        .iter()
        .map(|criterion| match criterion {
            Criterion::Method(methods) => format!("method:{}", methods.join("|")),
            Criterion::Host(host) => format!("host:{host}"),
            Criterion::PathPrefix(prefix) => format!("prefix:{prefix}"),
            Criterion::PathMatches(pattern) => format!("pattern:{}", pattern.as_str()),
            Criterion::Header { name, value } => format!("header:{name}={value}"),
            Criterion::Subject(check) => format!("subject:{check:?}"),
            Criterion::AcrAtLeast(floor) => format!("acr_at_least:{floor}"),
        })
        .collect();

    assert_eq!(
        kinds,
        vec![
            "method:GET".to_owned(),
            "host:app.example".to_owned(),
            "prefix:/u".to_owned(),
            "pattern:^/u/(?<user>[^/]+)/.*$".to_owned(),
            "header:x-env=prod".to_owned(),
            "subject:Authenticated".to_owned(),
            "subject:EqualsCapture(\"user\")".to_owned(),
        ],
        "every configured criterion must reach the engine as the right variant, in the \
         order the engine walks them"
    );
}

#[test]
fn each_subject_state_maps_to_its_own_check() {
    for (configured, expected) in [
        (SubjectStateConfig::Authenticated, "Authenticated"),
        (SubjectStateConfig::Anonymous, "Anonymous"),
    ] {
        let cfg = AccessRuleConfig {
            name: "state".to_owned(),
            action: AccessActionConfig::Deny,
            subject_state: Some(configured),
            ..AccessRuleConfig::default()
        };

        let set = rule_set_from_config_test(&enabled(vec![cfg])).expect("converts");
        let rendered = format!("{:?}", set.rules()[0].criteria);

        assert!(
            rendered.contains(expected),
            "{configured:?} must emit SubjectCheck::{expected}, got {rendered}"
        );
    }
}

#[test]
fn the_path_pattern_is_emitted_before_the_capture_that_reads_it() {
    let cfg = AccessRuleConfig {
        name: "own resource".to_owned(),
        action: AccessActionConfig::Allow,
        path_matches: Some("^/u/(?<user>[^/]+)$".to_owned()),
        subject_equals_capture: Some("user".to_owned()),
        ..AccessRuleConfig::default()
    };

    let set = rule_set_from_config_test(&enabled(vec![cfg])).expect("converts");
    let criteria = &set.rules()[0].criteria;

    let pattern = criteria
        .iter()
        .position(|c| matches!(c, Criterion::PathMatches(_)))
        .expect("the pattern is emitted");
    let capture = criteria
        .iter()
        .position(|c| matches!(c, Criterion::Subject(SubjectCheck::EqualsCapture(_))))
        .expect("the capture check is emitted");

    assert!(
        pattern < capture,
        "the pattern binds the capture, so it must come first: pattern at {pattern}, \
         capture at {capture}"
    );
}

#[test]
fn rule_order_is_preserved_exactly() {
    let names = ["first", "second", "third"];
    let set = rule_set_from_config_test(&enabled(names.iter().map(|n| rule(n)).collect()))
        .expect("converts");

    let got: Vec<&str> = set.rules().iter().map(|r| r.name.as_str()).collect();
    assert_eq!(got, names, "first-match-wins makes order the policy itself");
}

#[test]
fn a_disabled_section_builds_no_runtime() {
    let cfg = ForwardAuthConfig {
        enabled: false,
        rules: vec![rule("unused")],
        ..ForwardAuthConfig::default()
    };

    assert!(
        ForwardAuthRuntime::from_config(&cfg, &[])
            .expect("a disabled section is not an error")
            .is_none()
    );
}

#[test]
fn a_disabled_section_is_no_refusal_whatever_its_rules_are() {
    let unconvertible = AccessRuleConfig {
        subject_in_group: Some("admins".to_owned()),
        ..rule("unused")
    };
    let mut cfg = ForwardAuthConfig {
        rules: vec![unconvertible],
        ..ForwardAuthConfig::default()
    };
    assert!(matches!(ForwardAuthRuntime::from_config(&cfg, &[]), Ok(None)));
    cfg.enabled = true;
    assert!(ForwardAuthRuntime::from_config(&cfg, &[]).is_err());
}

#[test]
fn every_configured_dialect_maps_to_a_distinct_engine_dialect() {
    let pairs = [
        (
            ProxyDialectConfig::ForwardAuth,
            forward_auth::Dialect::ForwardAuth,
        ),
        (
            ProxyDialectConfig::NginxAuthRequest,
            forward_auth::Dialect::NginxAuthRequest,
        ),
        (
            ProxyDialectConfig::Haproxy,
            forward_auth::Dialect::Haproxy,
        ),
    ];

    for (configured, expected) in pairs {
        let runtime = ForwardAuthRuntime::from_config(
            &ForwardAuthConfig {
                enabled: true,
                dialect: configured,
                rules: vec![rule("any")],
                ..ForwardAuthConfig::default()
            },
            &[],
        )
        .expect("converts")
        .expect("enabled builds a runtime");

        assert_eq!(
            runtime.dialect(),
            expected,
            "{configured:?} must map to its own dialect"
        );
    }
}

fn step_up_to(acr: &str) -> AccessRuleConfig {
    AccessRuleConfig {
        name: "gate".to_owned(),
        action: AccessActionConfig::StepUp,
        acr: Some(acr.to_owned()),
        path_prefix: Some("/payments".to_owned()),
        ..AccessRuleConfig::default()
    }
}

#[test]
fn a_short_alias_is_resolved_to_the_context_a_session_actually_achieves() {
    let set = rule_set_from_config_test(&enabled(vec![step_up_to("mfa")])).expect("converts");

    let achieved = authn::achieved_acr(&authn::parse_methods("pwd totp"));
    assert_ne!(
        achieved, "mfa",
        "the premise: what a session achieves is not spelled the way an operator writes it"
    );

    let decided = set.decide(&rules::RequestFacts {
        method: "GET".to_owned(),
        host: "app.example".to_owned(),
        path: "/payments/transfer".to_owned(),
        subject: Some("alice".to_owned()),
        acr: Some(achieved.to_owned()),
        ..rules::RequestFacts::default()
    });
    assert_eq!(
        decided.action,
        rules::Action::Allow,
        "an operator writing `mfa` must be satisfied by a session that did MFA"
    );
}

#[test]
fn an_acr_naming_no_rung_is_refused_with_the_field_and_the_known_levels() {
    let mut floor = rule("gate");
    floor.acr_at_least = Some("urn:example:acr:invented".to_owned());

    for (field, cfg) in [
        ("acr", step_up_to("urn:example:acr:invented")),
        ("acr_at_least", floor),
    ] {
        let error = rule_set_from_config_test(&enabled(vec![cfg]))
            .expect_err("an acr nothing achieves is refused");
        match &error {
            ConversionError::UnknownAcr {
                rule,
                field: named,
                known,
                ..
            } => {
                assert_eq!(*named, field);
                assert_eq!(rule, "gate");
                assert!(
                    known.contains(&step_up::canonical_step_up_acr("mfa").as_str()),
                    "the refusal lists the rungs an operator can pick from, so the \
                     message is actionable rather than only a rejection"
                );
            }
            other => panic!("expected an UnknownAcr refusal for {field}, got {other:?}"),
        }
    }
}

#[test]
fn acr_at_least_selects_rather_than_challenging() {
    let mut cfg = rule("strong-only");
    cfg.action = AccessActionConfig::Allow;
    cfg.acr_at_least = Some("mfa".to_owned());
    let set = rule_set_from_config_test(&enabled(vec![cfg])).expect("converts");

    let at = |methods: &str| rules::RequestFacts {
        method: "GET".to_owned(),
        host: "app.example".to_owned(),
        path: "/x".to_owned(),
        subject: Some("alice".to_owned()),
        acr: Some(authn::achieved_acr(&authn::parse_methods(methods)).to_owned()),
        ..rules::RequestFacts::default()
    };

    assert_eq!(
        set.decide(&at("pwd totp")).action,
        rules::Action::Allow
    );
    let weak = set.decide(&at("pwd"));
    assert_eq!(
        weak.action,
        rules::Action::Deny,
        "the rule does not apply to a weak session, and no rule below it admits"
    );
    assert_eq!(
        weak.matched, None,
        "a floor SELECTS: the rule did not match, rather than matching and challenging"
    );
}

#[test]
fn the_from_config_seam_ranks_by_the_deployments_ladder() {
    let phr_below_mfa: Vec<String> = [
        "urn:ironauth:acr:pwd",
        "urn:ironauth:acr:mfa_remembered",
        "phr",
        "phrh",
        "urn:ironauth:acr:mfa",
        "urn:ironauth:acr:attested_passkey",
    ]
    .iter()
    .map(|acr| (*acr).to_owned())
    .collect();

    let mut cfg = enabled(vec![step_up_to("mfa")]);
    cfg.rules[0].path_prefix = None;

    let passkey = forward_auth::Identity {
        user: "alice".to_owned(),
        groups: Vec::new(),
        roles: Vec::new(),
        email: None,
        name: None,
        acr: Some(
            authn::achieved_acr(&authn::parse_methods("passkey")).to_owned(),
        ),
    };
    assert_eq!(
        passkey.acr.as_deref(),
        Some("phr"),
        "the premise: a passkey session reaches the rung this order demotes"
    );

    let facts = || rules::RequestFacts {
        method: "GET".to_owned(),
        host: "app.example".to_owned(),
        path: "/anything".to_owned(),
        ..rules::RequestFacts::default()
    };

    let under_default = ForwardAuthRuntime::from_config(&cfg, &[])
        .expect("converts")
        .expect("enabled");
    assert_eq!(
        under_default
            .forward_auth()
            .evaluate(facts(), Some(&passkey))
            .decision
            .action,
        rules::Action::Allow,
        "on the canonical ladder phr outranks mfa, so the step-up is already met"
    );

    let under_operator = ForwardAuthRuntime::from_config(&cfg, &phr_below_mfa)
        .expect("converts")
        .expect("enabled");
    assert_eq!(
        under_operator
            .forward_auth()
            .evaluate(facts(), Some(&passkey))
            .decision
            .action,
        rules::Action::StepUp {
            acr: step_up::canonical_step_up_acr("mfa")
        },
        "the deployment ranked phr below mfa, so the same session must be challenged"
    );
}

#[test]
fn the_rung_this_surface_cannot_observe_is_refused_and_left_out_of_the_advice() {
    let unobservable = unobservable_acr();
    assert!(
        step_up::known_step_up_acrs().contains(&unobservable),
        "the premise: this is an advertised level, so nothing else would refuse it"
    );

    let mut floor = rule("gate");
    floor.acr_at_least = Some(unobservable.to_owned());
    for cfg in [step_up_to(unobservable), floor] {
        match rule_set_from_config_test(&enabled(vec![cfg]))
            .expect_err("a rung this surface never sees is refused")
        {
            ConversionError::UnknownAcr { known, .. } => assert!(
                !known.contains(&unobservable),
                "the advice must not offer the level it just refused"
            ),
            other => panic!("expected UnknownAcr, got {other:?}"),
        }
    }

    for acr in observable_step_up_acrs() {
        rule_set_from_config_test(&enabled(vec![step_up_to(acr)]))
            .unwrap_or_else(|error| panic!("{acr} must still convert: {}", error.message()));
    }
}

#[test]
fn the_unknown_acr_refusal_names_the_rule_the_field_and_the_levels() {
    let rendered = rule_set_from_config_test(&enabled(vec![step_up_to("strong")]))
        .expect_err("no rung is named `strong`")
        .message();
    for expected in ["gate", "`acr`", "strong", "no authentication level"] {
        assert!(
            rendered.contains(expected),
            "the refusal must contain {expected}; got {rendered}"
        );
    }
    assert!(
        rendered.contains(&step_up::canonical_step_up_acr("mfa")),
        "and must list a level that does convert; got {rendered}"
    );
}

#[test]
fn the_configured_acr_order_reaches_the_rules_and_an_empty_one_falls_back() {
    let cfg = enabled(vec![step_up_to("mfa")]);

    assert_eq!(
        rule_set_from_config(&cfg, &[])
            .expect("converts")
            .acr_order()
            .to_vec(),
        step_up::default_acr_order(),
        "unset is the shipped ladder, not an empty one"
    );

    let mut inverted = step_up::default_acr_order();
    inverted.reverse();
    assert_eq!(
        rule_set_from_config(&cfg, &inverted)
            .expect("converts")
            .acr_order()
            .to_vec(),
        inverted
    );
}
