use ironauth_oidc::forward_auth::{
    facts_from_proxy, is_trusted_header, strip_trusted_headers, upstream_headers_for, Dialect,
    DialectError, ForwardAuth, Identity, IdentityError, ProxyHop,
};
use ironauth_oidc::rules::{Action, Criterion, RequestFacts, Rule, RuleSet, SubjectCheck};
use ironauth_oidc::step_up;

fn identity() -> Identity {
    Identity {
        user: "alice".to_owned(),
        groups: vec!["engineering".to_owned(), "oncall".to_owned()],
        roles: Vec::new(),
        email: Some("alice@example.test".to_owned()),
        name: Some("Alice".to_owned()),
        acr: None,
    }
}

fn rule(name: &str, criteria: Vec<Criterion>, action: Action) -> Rule {
    Rule {
        name: name.to_owned(),
        criteria,
        action,
    }
}

fn admitting() -> ForwardAuth {
    ForwardAuth::new(RuleSet::new(vec![rule("open", vec![], Action::Allow)]))
}

fn gated_on(name: &str) -> ForwardAuth {
    ForwardAuth::new(RuleSet::new(vec![
        rule(
            "reserved-header-gate",
            vec![Criterion::Header {
                name: name.to_owned(),
                value: "admins".to_owned(),
            }],
            Action::Allow,
        ),
        rule("default-deny", vec![], Action::Deny),
    ]))
}

fn request_with(name: &str, value: &str) -> RequestFacts {
    let mut facts = RequestFacts {
        method: "GET".to_owned(),
        host: "app.example.test".to_owned(),
        path: "/".to_owned(),
        ..RequestFacts::default()
    };
    facts.headers.insert(name.to_owned(), value.to_owned());
    facts
}

#[test]
fn a_client_supplied_reserved_header_never_decides_a_request() {
    for spelling in [
        "Remote-Groups",
        "remote-groups",
        "REMOTE-GROUPS",
        "ReMoTe-GrOuPs",
        "Remote_Groups",
        "REMOTE_GROUPS",
        " Remote-Groups",
        "Remote-Groups ",
    ] {
        let outcome =
            gated_on("Remote-Groups").evaluate(request_with(spelling, "admins"), None);
        assert_eq!(
            outcome.decision.action,
            Action::Deny,
            "{spelling}: a client-chosen value must not satisfy a rule on a reserved name"
        );
        assert_eq!(
            outcome.decision.matched.as_deref(),
            Some("default-deny"),
            "{spelling}: and it must fall through to the deny"
        );
        assert_eq!(
            outcome.must_delete,
            vec![spelling.to_owned()],
            "{spelling}: and the adapter is told to delete it"
        );
    }
}

#[test]
fn every_header_the_emitter_can_send_is_reserved_against_the_client() {
    let full = Identity {
        user: "u".to_owned(),
        groups: vec!["g".to_owned()],
        roles: vec!["r".to_owned()],
        email: Some("e@example.test".to_owned()),
        name: Some("n".to_owned()),
        acr: None,
    };
    let emitted = upstream_headers_for(&full);
    assert_eq!(
        emitted.len(),
        4,
        "all four fields are populated in this fixture"
    );

    for (name, _) in &emitted {
        assert!(
            is_trusted_header(name),
            "{name} is emitted upstream but a client could send it"
        );
    }

    let mut names: Vec<&str> = emitted.iter().map(|(name, _)| name.as_str()).collect();
    names.sort_unstable();
    let distinct = names.len();
    names.dedup();
    assert_eq!(names.len(), distinct, "two entries share a header name");
}

#[test]
fn an_identity_that_cannot_be_serialised_is_refused() {
    let cases = [
        (
            "crlf in the subject",
            Identity {
                user: "alice\r\nRemote-Groups: admins".to_owned(),
                ..identity()
            },
            IdentityError::ControlCharacter { field: "user" },
        ),
        (
            "newline in the display name",
            Identity {
                name: Some("A\nB".to_owned()),
                acr: None,
                ..identity()
            },
            IdentityError::ControlCharacter { field: "name" },
        ),
        (
            "crlf in the email",
            Identity {
                email: Some("a@b\r\nX-Admin: 1".to_owned()),
                ..identity()
            },
            IdentityError::ControlCharacter { field: "email" },
        ),
        (
            "a comma inside one group name",
            Identity {
                groups: vec!["Finance, EU".to_owned()],
                ..identity()
            },
            IdentityError::SeparatorInGroup {
                group: "Finance, EU".to_owned(),
            },
        ),
        (
            "an empty subject",
            Identity {
                user: String::new(),
                ..identity()
            },
            IdentityError::EmptySubject,
        ),
    ];

    for (what, bad, expected) in cases {
        let outcome = admitting().evaluate(request_with("X-Other", "kept"), Some(&bad));
        assert_eq!(
            outcome.identity_rejected.as_ref(),
            Some(&expected),
            "{what}: must be rejected by name"
        );
        assert_eq!(
            outcome.decision.action,
            Action::Deny,
            "{what}: and the request refused, not admitted with a missing header"
        );
        assert!(outcome.upstream_headers.is_empty(), "{what}");
    }
}

#[test]
fn a_comma_in_a_group_name_cannot_forge_a_second_membership() {
    let one = Identity {
        groups: vec!["users,admins".to_owned()],
        ..identity()
    };
    let two = Identity {
        groups: vec!["users".to_owned(), "admins".to_owned()],
        ..identity()
    };
    assert_eq!(
        one.validate(),
        Err(IdentityError::SeparatorInGroup {
            group: "users,admins".to_owned()
        })
    );
    assert_eq!(
        two.validate(),
        Ok(()),
        "the genuine two-group case still works"
    );
}

#[test]
fn the_decided_principal_is_the_forwarded_principal() {
    let gated = ForwardAuth::new(RuleSet::new(vec![
        rule(
            "engineering-only",
            vec![Criterion::Subject(SubjectCheck::InGroup(
                "engineering".to_owned(),
            ))],
            Action::Allow,
        ),
        rule("default-deny", vec![], Action::Deny),
    ]));

    let mut facts = request_with("X-Other", "kept");
    facts.subject = Some("alice".to_owned());
    facts.groups = vec!["engineering".to_owned()];
    let mallory = Identity {
        user: "mallory".to_owned(),
        groups: vec!["admins".to_owned(), "finance".to_owned()],
        roles: Vec::new(),
        email: None,
        name: None,
        acr: None,
    };

    let outcome = gated.evaluate(facts, Some(&mallory));
    assert_eq!(
        outcome.decision.action,
        Action::Deny,
        "the decision must be about mallory, who is not in engineering"
    );
    assert!(outcome.upstream_headers.is_empty());

    let engineer = Identity {
        user: "alice".to_owned(),
        groups: vec!["engineering".to_owned()],
        roles: Vec::new(),
        email: None,
        name: None,
        acr: None,
    };
    let outcome = gated.evaluate(request_with("X-Other", "kept"), Some(&engineer));
    assert_eq!(outcome.decision.action, Action::Allow);
    assert_eq!(
        outcome.upstream_headers[0],
        ("Remote-User".to_owned(), "alice".to_owned())
    );
}

#[test]
fn a_denied_request_forwards_no_identity() {
    let shut = ForwardAuth::new(RuleSet::new(vec![rule("shut", vec![], Action::Deny)]));
    let outcome = shut.evaluate(request_with("X-Other", "kept"), Some(&identity()));
    assert_eq!(outcome.decision.action, Action::Deny);
    assert!(
        outcome.upstream_headers.is_empty(),
        "a refusal must not hand the upstream an identity for a request it was told to refuse"
    );
}

#[test]
fn a_step_up_forwards_no_identity() {
    let stepped = ForwardAuth::new(RuleSet::new(vec![rule(
        "mfa",
        vec![],
        Action::StepUp {
            acr: "mfa".to_owned(),
        },
    )]));
    let outcome = stepped.evaluate(request_with("X-Other", "kept"), Some(&identity()));
    assert_eq!(
        outcome.decision.action,
        Action::StepUp {
            acr: "mfa".to_owned()
        }
    );
    assert!(outcome.upstream_headers.is_empty());
}

#[test]
fn an_allowed_request_forwards_the_established_identity() {
    let outcome = admitting().evaluate(request_with("Remote-User", "root"), Some(&identity()));
    assert_eq!(outcome.decision.action, Action::Allow);
    assert_eq!(
        outcome.upstream_headers,
        vec![
            ("Remote-User".to_owned(), "alice".to_owned()),
            ("Remote-Groups".to_owned(), "engineering,oncall".to_owned()),
            ("Remote-Email".to_owned(), "alice@example.test".to_owned()),
            ("Remote-Name".to_owned(), "Alice".to_owned()),
        ]
    );
    assert_eq!(
        outcome.must_delete,
        vec!["Remote-User".to_owned()],
        "and the forged one is flagged for deletion by the adapter"
    );
}

#[test]
fn an_anonymous_admission_forwards_no_identity() {
    let outcome = admitting().evaluate(request_with("X-Other", "kept"), None);
    assert_eq!(outcome.decision.action, Action::Allow);
    assert!(outcome.upstream_headers.is_empty());
}

#[test]
fn absent_optional_fields_are_omitted_rather_than_blank() {
    let sparse = Identity {
        user: "bob".to_owned(),
        groups: Vec::new(),
        roles: Vec::new(),
        email: None,
        name: None,
        acr: None,
    };
    let headers = upstream_headers_for(&sparse);
    let names: Vec<&str> = headers.iter().map(|(name, _)| name.as_str()).collect();
    assert_eq!(names, vec!["Remote-User", "Remote-Groups"]);
    assert_eq!(
        headers[1].1, "",
        "no groups is an empty list, which is a real answer, unlike a missing email"
    );
}

#[test]
fn an_ordinary_header_is_not_stripped() {
    let outcome = gated_on("X-Service").evaluate(request_with("X-Service", "admins"), None);
    assert_eq!(
        outcome.decision.matched.as_deref(),
        Some("reserved-header-gate"),
        "an ordinary header must still reach a rule written about it"
    );
    assert!(outcome.must_delete.is_empty());
}

#[test]
fn the_deletion_instruction_is_sorted() {
    let mut facts = request_with("Remote-User", "a");
    facts
        .headers
        .insert("Remote-Name".to_owned(), "b".to_owned());
    facts
        .headers
        .insert("Remote-Email".to_owned(), "c".to_owned());

    let first = strip_trusted_headers(facts.clone()).1;
    assert_eq!(
        first,
        vec![
            "Remote-Email".to_owned(),
            "Remote-Name".to_owned(),
            "Remote-User".to_owned()
        ]
    );
    for _ in 0..50 {
        assert_eq!(strip_trusted_headers(facts.clone()).1, first);
    }
}

#[test]
fn the_proxy_adapter_sanitises_and_combines_repeated_headers() {
    let (facts, must_delete) = facts_from_proxy(
        "GET",
        "app.example.test",
        "/",
        vec![
            ("remote-user".to_owned(), "root".to_owned()),
            ("x-service".to_owned(), "billing".to_owned()),
            ("x-service".to_owned(), "admin".to_owned()),
        ],
    );
    assert_eq!(must_delete, vec!["remote-user".to_owned()]);
    assert!(!facts.headers.contains_key("remote-user"));
    assert_eq!(
        facts.headers.get("x-service").map(String::as_str),
        Some("billing, admin"),
        "neither value may be dropped: an exact-value rule then matches neither, \
         which is the refusing direction"
    );
}

const ALL_DIALECTS: [Dialect; 4] = [
    Dialect::ForwardAuth,
    Dialect::NginxAuthRequest,
    Dialect::EnvoyExtAuthz,
    Dialect::Haproxy,
];

fn check_for(dialect: Dialect) -> Vec<(String, String)> {
    let mut headers = vec![(
        dialect.host_header().to_owned(),
        "app.example.test".to_owned(),
    )];
    if let Some(name) = dialect.method_header() {
        headers.push((name.to_owned(), "GET".to_owned()));
    }
    if let Some(name) = dialect.uri_header() {
        headers.push((name.to_owned(), "/admin/keys".to_owned()));
    }
    headers
}

#[test]
fn an_untrusted_hop_is_refused_before_any_header_is_read() {
    for dialect in ALL_DIALECTS {
        let mut headers = check_for(dialect);
        if let Some(name) = dialect.uri_header() {
            headers.retain(|(key, _)| key != name);
            headers.push((name.to_owned(), "/public/logo.png".to_owned()));
        }
        assert_eq!(
            dialect.describe(ProxyHop::Untrusted, "POST", "/verify", &headers),
            Err(DialectError::UntrustedHop),
            "{dialect:?}: an untrusted hop must be refused"
        );
    }
}

#[test]
fn a_conflicting_original_uri_is_refused_rather_than_resolved() {
    for dialect in ALL_DIALECTS {
        let Some(name) = dialect.uri_header() else {
            continue;
        };
        let mut headers = check_for(dialect);
        headers.push((name.to_owned(), "/public/logo.png".to_owned()));
        assert_eq!(
            dialect.describe(ProxyHop::Trusted, "GET", "/verify", &headers),
            Err(DialectError::Conflicting { header: name }),
            "{dialect:?}: two different original URIs must refuse"
        );
    }
}

#[test]
fn a_repeated_but_identical_header_is_accepted() {
    for dialect in ALL_DIALECTS {
        let Some(name) = dialect.uri_header() else {
            continue;
        };
        let mut headers = check_for(dialect);
        headers.push((name.to_owned(), "/admin/keys".to_owned()));
        let (facts, _) = dialect
            .describe(ProxyHop::Trusted, "GET", "/verify", &headers)
            .expect("identical repeats are not a conflict");
        assert_eq!(facts.path, "/admin/keys", "{dialect:?}");
    }
}

#[test]
fn a_dialect_ignores_another_dialects_original_uri_header() {
    let foreign = [
        ("x-forwarded-uri", "/attacker/choice"),
        ("x-original-uri", "/attacker/choice"),
        ("x-forwarded-method", "DELETE"),
        ("x-original-method", "DELETE"),
    ];
    for dialect in ALL_DIALECTS {
        let mut headers = check_for(dialect);
        for (name, value) in foreign {
            if Some(name) == dialect.uri_header() || Some(name) == dialect.method_header() {
                continue;
            }
            headers.push(((*name).to_owned(), (*value).to_owned()));
        }
        let (facts, _) = dialect
            .describe(ProxyHop::Trusted, "GET", "/admin/keys", &headers)
            .expect("the dialect's own headers are well formed");
        assert_eq!(
            facts.path, "/admin/keys",
            "{dialect:?}: another dialect's header must not decide the path"
        );
        assert_eq!(facts.method, "GET", "{dialect:?}: nor the method");
    }
}

#[test]
fn a_missing_original_request_header_is_refused() {
    for dialect in ALL_DIALECTS {
        for name in [dialect.uri_header(), dialect.method_header()]
            .into_iter()
            .flatten()
        {
            let headers: Vec<(String, String)> = check_for(dialect)
                .into_iter()
                .filter(|(key, _)| key != name)
                .collect();
            assert_eq!(
                dialect.describe(ProxyHop::Trusted, "GET", "/admin/keys", &headers),
                Err(DialectError::Missing { header: name }),
                "{dialect:?}: a missing {name} must refuse"
            );
        }
        let name = dialect.host_header();
        let headers: Vec<(String, String)> = check_for(dialect)
            .into_iter()
            .filter(|(key, _)| key != name)
            .collect();
        assert_eq!(
            dialect.describe(ProxyHop::Trusted, "GET", "/admin/keys", &headers),
            Err(DialectError::Missing { header: name }),
            "{dialect:?}"
        );
    }
}

#[test]
fn a_uri_a_path_rule_cannot_decide_is_refused() {
    for dialect in ALL_DIALECTS {
        for bad in [
            "/public/../admin/keys",
            "..",
            "admin/keys",
            "https://elsewhere.test/admin",
            "",
        ] {
            let mut headers = check_for(dialect);
            let (method, path) = ("GET", bad);
            if let Some(name) = dialect.uri_header() {
                headers.retain(|(key, _)| key != name);
                headers.push((name.to_owned(), bad.to_owned()));
            }
            let got = dialect.describe(ProxyHop::Trusted, method, path, &headers);
            assert_eq!(
                got,
                Err(DialectError::MalformedUri),
                "{dialect:?}: {bad:?} must be refused"
            );
        }
    }
}

#[test]
fn a_query_string_does_not_reach_the_path() {
    for dialect in ALL_DIALECTS {
        let mut headers = check_for(dialect);
        let with_query = "/admin/keys?next=/public";
        if let Some(name) = dialect.uri_header() {
            headers.retain(|(key, _)| key != name);
            headers.push((name.to_owned(), with_query.to_owned()));
        }
        let (facts, _) = dialect
            .describe(ProxyHop::Trusted, "GET", with_query, &headers)
            .expect("a query is not malformed");
        assert_eq!(facts.path, "/admin/keys", "{dialect:?}");
    }
}

#[test]
fn a_dialect_strips_reserved_identity_headers() {
    for dialect in ALL_DIALECTS {
        let mut headers = check_for(dialect);
        headers.push(("Remote-User".to_owned(), "root".to_owned()));
        let (facts, stripped) = dialect
            .describe(ProxyHop::Trusted, "GET", "/admin/keys", &headers)
            .expect("well formed");
        assert_eq!(stripped, vec!["Remote-User".to_owned()], "{dialect:?}");
        assert!(
            !facts.headers.keys().iter().any(|key| is_trusted_header(key)),
            "{dialect:?}: no reserved header may survive into the facts"
        );
    }
}

#[test]
fn every_dialect_describes_one_original_request_identically() {
    let mut described = Vec::new();
    for dialect in ALL_DIALECTS {
        let (facts, _) = dialect
            .describe(ProxyHop::Trusted, "GET", "/admin/keys", &check_for(dialect))
            .expect("well formed");
        described.push((facts.method, facts.host, facts.path));
    }
    for (index, got) in described.iter().enumerate() {
        assert_eq!(
            got, &described[0],
            "dialect {index} describes the same request differently"
        );
    }
    assert_eq!(
        described[0],
        (
            "GET".to_owned(),
            "app.example.test".to_owned(),
            "/admin/keys".to_owned()
        )
    );
}

#[test]
fn the_dialect_header_names_are_the_documented_ones() {
    assert_eq!(
        Dialect::ForwardAuth.method_header(),
        Some("x-forwarded-method")
    );
    assert_eq!(Dialect::ForwardAuth.uri_header(), Some("x-forwarded-uri"));

    assert_eq!(
        Dialect::NginxAuthRequest.method_header(),
        Some("x-original-method")
    );
    assert_eq!(
        Dialect::NginxAuthRequest.uri_header(),
        Some("x-original-uri"),
        "nginx sets x-original-uri; reading x-forwarded-uri here would honour a header \
         nginx never sets and never strips"
    );

    assert_eq!(
        Dialect::EnvoyExtAuthz.method_header(),
        None,
        "the ext_authz check request carries the original method as its own"
    );
    assert_eq!(Dialect::EnvoyExtAuthz.uri_header(), None);

    assert_eq!(Dialect::Haproxy.method_header(), Some("x-forwarded-method"));
    assert_eq!(
        Dialect::Haproxy.uri_header(),
        Some("x-forwarded-uri"),
        "HAProxy forward-auth sets X-Forwarded-Method, X-Forwarded-Host and \
         X-Forwarded-URI. This row said x-original-uri, which HAProxy neither sets nor \
         strips, so a client supplied it and chose its own path"
    );

    assert_eq!(Dialect::ForwardAuth.host_header(), "x-forwarded-host");
    assert_eq!(Dialect::Haproxy.host_header(), "x-forwarded-host");
    assert_eq!(
        Dialect::EnvoyExtAuthz.host_header(),
        "host",
        "ext_authz includes Host, Method, Path, Content-Length and Authorization by \
         default and nothing else"
    );
    assert_eq!(
        Dialect::NginxAuthRequest.host_header(),
        "host",
        "auth_request sets no headers; the subrequest inherits Host"
    );
}

#[test]
fn a_conflict_on_any_original_request_header_is_refused() {
    for dialect in ALL_DIALECTS {
        let mut headers = check_for(dialect);
        headers.push((
            dialect.host_header().to_owned(),
            "elsewhere.test".to_owned(),
        ));
        assert_eq!(
            dialect.describe(ProxyHop::Trusted, "GET", "/admin/keys", &headers),
            Err(DialectError::Conflicting {
                header: dialect.host_header()
            }),
            "{dialect:?}: two hosts must refuse"
        );

        if let Some(name) = dialect.method_header() {
            let mut headers = check_for(dialect);
            headers.push((name.to_owned(), "DELETE".to_owned()));
            assert_eq!(
                dialect.describe(ProxyHop::Trusted, "GET", "/admin/keys", &headers),
                Err(DialectError::Conflicting { header: name }),
                "{dialect:?}: two methods must refuse"
            );
        }
    }
}

#[test]
fn a_percent_encoded_path_is_refused_because_nothing_here_can_decode_it() {
    for dialect in ALL_DIALECTS {
        for encoded in [
            "/public/%2e%2e/admin/keys",
            "/public/%2E%2E/admin/keys",
            "/public/%2e%2e%2fadmin/keys",
            "/public/.%2e/admin/keys",
            "/public/%252e%252e/admin/keys",
            "/public/a%20b",
        ] {
            let mut headers = check_for(dialect);
            if let Some(name) = dialect.uri_header() {
                headers.retain(|(key, _)| key != name);
                headers.push((name.to_owned(), encoded.to_owned()));
            }
            assert_eq!(
                dialect.describe(ProxyHop::Trusted, "GET", encoded, &headers),
                Err(DialectError::MalformedUri),
                "{dialect:?}: {encoded} must be refused"
            );
        }
    }
}

#[test]
fn a_path_that_cannot_safely_be_logged_or_bounded_is_refused() {
    let long = format!("/{}", "a".repeat(5000));
    for bad in [
        "/admin\u{0}/keys",
        "/admin\n/keys",
        "/admin\r\n/keys",
        &long,
    ] {
        let dialect = Dialect::ForwardAuth;
        let mut headers = check_for(dialect);
        headers.retain(|(key, _)| key != "x-forwarded-uri");
        headers.push(("x-forwarded-uri".to_owned(), bad.to_owned()));
        assert_eq!(
            dialect.describe(ProxyHop::Trusted, "GET", bad, &headers),
            Err(DialectError::MalformedUri),
            "{bad:?} must be refused"
        );
    }
}

#[test]
fn a_fragment_does_not_reach_the_path() {
    for dialect in ALL_DIALECTS {
        let with_fragment = "/admin/keys#section";
        let mut headers = check_for(dialect);
        if let Some(name) = dialect.uri_header() {
            headers.retain(|(key, _)| key != name);
            headers.push((name.to_owned(), with_fragment.to_owned()));
        }
        let (facts, _) = dialect
            .describe(ProxyHop::Trusted, "GET", with_fragment, &headers)
            .expect("a fragment is not malformed");
        assert_eq!(facts.path, "/admin/keys", "{dialect:?}");
    }
}

#[test]
fn a_host_is_normalised_to_one_host_without_a_port() {
    let dialect = Dialect::ForwardAuth;
    for (sent, expected) in [
        ("app.example.test", "app.example.test"),
        ("app.example.test:8443", "app.example.test"),
        ("[2001:db8::1]:8443", "[2001:db8::1]"),
    ] {
        let mut headers = check_for(dialect);
        headers.retain(|(key, _)| key != "x-forwarded-host");
        headers.push(("x-forwarded-host".to_owned(), sent.to_owned()));
        let (facts, _) = dialect
            .describe(ProxyHop::Trusted, "GET", "/admin/keys", &headers)
            .expect("a port is not a refusal");
        assert_eq!(facts.host, expected, "{sent}");
    }

    for ambiguous in ["inner.test, app.example.test", ""] {
        let mut headers = check_for(dialect);
        headers.retain(|(key, _)| key != "x-forwarded-host");
        headers.push(("x-forwarded-host".to_owned(), ambiguous.to_owned()));
        let got = dialect.describe(ProxyHop::Trusted, "GET", "/admin/keys", &headers);
        assert!(
            matches!(
                got,
                Err(DialectError::MalformedHost | DialectError::Missing { .. })
            ),
            "{ambiguous:?} must not become a host a rule is compared against: {got:?}"
        );
    }
}

#[test]
fn the_two_adapters_agree_about_a_repeated_header() {
    let dialect = Dialect::ForwardAuth;
    let mut headers = check_for(dialect);
    headers.push(("x-internal".to_owned(), "no".to_owned()));
    headers.push(("x-internal".to_owned(), "yes".to_owned()));

    let (via_dialect, _) = dialect
        .describe(ProxyHop::Trusted, "GET", "/admin/keys", &headers)
        .expect("well formed");
    let (via_adapter, _) = facts_from_proxy(
        "GET",
        "app.example.test",
        "/admin/keys",
        headers.to_vec(),
    );
    assert_eq!(
        via_dialect.headers.get("x-internal"),
        via_adapter.headers.get("x-internal"),
        "the two doors into the engine must not disagree"
    );
    assert_eq!(
        via_dialect.headers.get("x-internal").map(String::as_str),
        Some("no, yes"),
        "neither value may be dropped"
    );
}

#[test]
fn the_reached_context_is_taken_from_the_identity_and_not_from_the_request() {
    let mfa = step_up::canonical_step_up_acr("mfa");
    let pwd = step_up::canonical_step_up_acr("pwd");
    let gate = ForwardAuth::new(RuleSet::new(vec![rule(
        "needs-mfa",
        vec![],
        Action::StepUp { acr: mfa.clone() },
    )]));

    let claiming = RequestFacts {
        method: "GET".to_owned(),
        host: "app.example.com".to_owned(),
        path: "/payments".to_owned(),
        acr: Some(mfa.clone()),
        ..RequestFacts::default()
    };

    let weak = Identity {
        acr: Some(pwd),
        ..identity()
    };
    assert_eq!(
        gate.evaluate(claiming.clone(), Some(&weak)).decision.action,
        Action::StepUp { acr: mfa.clone() },
        "a request asserting the context it was told to reach must still be challenged"
    );

    assert_eq!(
        gate.evaluate(claiming.clone(), None).decision.action,
        Action::StepUp { acr: mfa.clone() },
        "and an anonymous request asserting it must be challenged too, because the \
         overwrite clears the field rather than leaving what arrived"
    );

    let stepped_up = Identity {
        acr: Some(mfa.clone()),
        ..identity()
    };
    let admitted = gate.evaluate(
        RequestFacts {
            acr: None,
            ..claiming
        },
        Some(&stepped_up),
    );
    assert_eq!(
        admitted.decision.action,
        Action::Allow,
        "and the identity's context is what admits, even when the request stated none"
    );
    assert!(
        !admitted.upstream_headers.is_empty(),
        "an admission still forwards the identity"
    );
}
