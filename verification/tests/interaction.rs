use ironauth_oidc::authn::AuthenticationEvent;
use ironauth_oidc::global_revocation::SessionSignalCause;
use ironauth_oidc::headers::Headers;
use ironauth_oidc::hints::Display;
use ironauth_oidc::interaction::{
    bound_value_matches, connector_unavailable_page, consent_redirect, establish_session,
    forbidden_page, interaction_url, mfa_challenge_redirect, origin_of, parse_resume,
    passkey_reauth_redirect, plan_cookies, redirect, redirect_setting_cookie, register_redirect,
    related_origin_ok, resolve_session, same_origin_ok, session_cookies, transition_signal, AccountState, BindingKnobs,
    EstablishSessionError, PriorSessionOutcome, SessionCookies, SessionRecord, ORIGIN,
    SEC_FETCH_SITE,
};

#[test]
fn parse_resume_accepts_a_local_authorize_path_and_recovers_scope() {
    let client = "cli_2Yx9";
    let return_to = format!(
        "/authorize?response_type=code&client_id={client}&scope=openid%20profile&\
         login_hint=ada%40example.test&ui_locales=fr&display=popup"
    );
    let resume = parse_resume(Some(&return_to)).expect("valid resume");
    assert_eq!(resume.client_id, client);
    assert_eq!(resume.oauth_scope.as_deref(), Some("openid profile"));
    assert_eq!(resume.hints.login_hint(), Some("ada@example.test"));
    assert_eq!(resume.hints.ui_locales(), Some("fr"));
    assert_eq!(resume.hints.display(), Display::Popup);
}

fn set(headers: &mut Headers, name: &str, value: &str) {
    headers.insert(name.to_owned(), value.to_owned());
}

#[test]
fn same_origin_ok_rejects_cross_site_and_allows_same_origin_or_no_headers() {
    let expected = Some("https://issuer.test");

    assert!(same_origin_ok(&Headers::new(), expected));

    let mut cross_site = Headers::new();
    set(&mut cross_site, SEC_FETCH_SITE, "cross-site");
    assert!(!same_origin_ok(&cross_site, expected));

    let mut cross_origin = Headers::new();
    set(&mut cross_origin, ORIGIN, "https://evil.test");
    assert!(!same_origin_ok(&cross_origin, expected));

    let mut same = Headers::new();
    set(&mut same, ORIGIN, "https://issuer.test");
    set(&mut same, SEC_FETCH_SITE, "same-origin");
    assert!(same_origin_ok(&same, expected));

    let mut same_site = Headers::new();
    set(&mut same_site, SEC_FETCH_SITE, "same-site");
    assert!(same_origin_ok(&same_site, expected));

    assert!(same_origin_ok(&cross_origin, None));
    assert!(!same_origin_ok(&cross_site, None));
}

#[test]
fn related_origin_ok_admits_a_listed_related_origin_and_rejects_the_rest() {
    let serving = "https://issuer.test".to_owned();
    let related = "https://example.de".to_owned();
    let allowed = vec![serving.clone(), related.clone()];

    let mut same = Headers::new();
    set(&mut same, ORIGIN, "https://issuer.test");
    set(&mut same, SEC_FETCH_SITE, "same-origin");
    assert!(related_origin_ok(&same, &allowed));

    let mut related_hdrs = Headers::new();
    set(&mut related_hdrs, ORIGIN, "https://example.de");
    set(&mut related_hdrs, SEC_FETCH_SITE, "cross-site");
    assert!(related_origin_ok(&related_hdrs, &allowed));
    assert!(!same_origin_ok(&related_hdrs, Some(&serving)));

    let mut evil = Headers::new();
    set(&mut evil, ORIGIN, "https://evil.test");
    assert!(!related_origin_ok(&evil, &allowed));

    let mut ported = Headers::new();
    set(&mut ported, ORIGIN, "https://EXAMPLE.de:443");
    assert!(related_origin_ok(&ported, &allowed));
}

#[test]
fn related_origin_ok_fails_closed_on_a_missing_or_opaque_origin() {
    let allowed = vec![
        "https://issuer.test".to_owned(),
        "https://example.de".to_owned(),
    ];

    assert!(!related_origin_ok(&Headers::new(), &allowed));

    let mut fetch_only = Headers::new();
    set(&mut fetch_only, SEC_FETCH_SITE, "same-origin");
    assert!(related_origin_ok(&fetch_only, &allowed));

    let mut fetch_same_site = Headers::new();
    set(&mut fetch_same_site, SEC_FETCH_SITE, "same-site");
    assert!(!related_origin_ok(&fetch_same_site, &allowed));

    let mut opaque_ok = Headers::new();
    set(&mut opaque_ok, ORIGIN, "null");
    set(&mut opaque_ok, SEC_FETCH_SITE, "same-origin");
    assert!(related_origin_ok(&opaque_ok, &allowed));

    let mut opaque_cross = Headers::new();
    set(&mut opaque_cross, ORIGIN, "null");
    set(&mut opaque_cross, SEC_FETCH_SITE, "cross-site");
    assert!(!related_origin_ok(&opaque_cross, &allowed));

    let mut opaque_bare = Headers::new();
    set(&mut opaque_bare, ORIGIN, "null");
    assert!(!related_origin_ok(&opaque_bare, &allowed));
}

fn headers_of(pairs: &[(&'static str, &'static str)]) -> Headers {
    let mut headers = Headers::new();
    for (name, value) in pairs {
        set(&mut headers, name, value);
    }
    headers
}

#[test]
fn same_origin_ok_resolves_an_opaque_origin_by_fetch_metadata() {
    let expected = Some("https://issuer.test");

    assert!(same_origin_ok(
        &headers_of(&[("origin", "null"), ("sec-fetch-site", "same-origin")]),
        expected
    ));

    assert!(!same_origin_ok(
        &headers_of(&[("origin", "null"), ("sec-fetch-site", "same-site")]),
        expected
    ));

    assert!(!same_origin_ok(
        &headers_of(&[("origin", "null"), ("sec-fetch-site", "cross-site")]),
        expected
    ));

    assert!(!same_origin_ok(
        &headers_of(&[("origin", "null")]),
        expected
    ));

    assert!(!same_origin_ok(
        &headers_of(&[("origin", "null"), ("sec-fetch-site", "none")]),
        expected
    ));

    for site in ["same-origin", "same-site", "cross-site", "none"] {
        let mut headers = headers_of(&[("origin", "https://evil.test")]);
        set(&mut headers, SEC_FETCH_SITE, site);
        assert!(
            !same_origin_ok(&headers, expected),
            "a foreign Origin is rejected with Sec-Fetch-Site: {site}"
        );
    }

    assert!(!same_origin_ok(&headers_of(&[("origin", "null")]), None));
    assert!(same_origin_ok(
        &headers_of(&[("origin", "null"), ("sec-fetch-site", "same-origin")]),
        None
    ));
}

#[test]
fn same_origin_ok_normalizes_case_and_default_port_before_comparing() {
    let expected = Some("https://Issuer.test:443");
    let mut browser = Headers::new();
    set(&mut browser, ORIGIN, "https://issuer.test");
    assert!(
        same_origin_ok(&browser, expected),
        "a normalized browser Origin matches an un-normalized expected origin"
    );

    let mut evil = Headers::new();
    set(&mut evil, ORIGIN, "https://evil.test");
    assert!(!same_origin_ok(&evil, expected));

    let mut other_port = Headers::new();
    set(&mut other_port, ORIGIN, "https://issuer.test:8443");
    assert!(!same_origin_ok(&other_port, expected));
}

#[test]
fn parse_resume_rejects_open_redirect_and_non_authorize_targets() {
    for hostile in [
        "//evil.example/authorize?client_id=x",
        "https://evil.example/authorize?client_id=x",
        "/somewhere-else?client_id=x",
        "/authorize?client_id=x\r\nSet-Cookie: a=b",
        "/authorize?no_client=1",
    ] {
        assert!(
            parse_resume(Some(hostile)).is_none(),
            "{hostile} must be refused"
        );
    }
    assert!(parse_resume(None).is_none());
}

#[test]
fn an_origin_is_a_scheme_and_an_authority() {
    assert_eq!(
        origin_of("https://Op.test:443/path?q#f").as_deref().map(str::to_lowercase).as_deref(),
        Some("https://op.test")
    );
    assert_eq!(origin_of("nonsense"), None);
}

fn record() -> SessionRecord {
    SessionRecord {
        subject: "usr_1".to_owned(),
        auth_time_unix_micros: 5,
        auth_methods: "pwd".to_owned(),
        user_agent: Some("ua".to_owned()),
        peer_ip: None,
    }
}

#[test]
fn a_session_holds_to_what_it_was_bound_to() {
    let knobs = BindingKnobs { device: true, peer_ip: false };
    assert!(resolve_session("ses_1", Some(record()), knobs, Some("ua"), None).is_some());
    assert!(resolve_session("ses_1", Some(record()), knobs, Some("other"), None).is_none());
    assert!(resolve_session("ses_1", None, knobs, Some("ua"), None).is_none());
    assert!(!bound_value_matches(None, Some("x")));
    assert!(!bound_value_matches(Some("x"), None));
}

#[test]
fn a_session_begins_for_an_account_that_may_sign_in() {
    let begin = |state: AccountState| {
        establish_session(
            state,
            0,
            1,
            2,
            "usr_1",
            &AuthenticationEvent::password(7),
            Some("ses_0"),
            BindingKnobs { device: true, peer_ip: false },
            Some("ua"),
            Some("198.51.100.7"),
        )
    };
    let rotation = begin(AccountState::Authenticatable).expect("begins");
    assert_eq!(rotation.prior.as_deref(), Some("ses_0"));
    assert_eq!(rotation.session.auth_methods, "pwd");
    assert_eq!(rotation.session.auth_time_micros, 7);
    assert_eq!(rotation.session.idle_expires_micros, 1_000_000);
    assert_eq!(rotation.session.absolute_expires_micros, 2_000_000);
    assert_eq!(rotation.session.user_agent.as_deref(), Some("ua"));
    assert_eq!(rotation.session.peer_ip, None);
    assert_eq!(
        begin(AccountState::Fenced),
        Err(EstablishSessionError::NotAuthenticatable)
    );
    assert_eq!(
        begin(AccountState::Absent),
        Err(EstablishSessionError::NotAuthenticatable)
    );
    assert_eq!(begin(AccountState::Fault), Err(EstablishSessionError::Store));
}

#[test]
fn the_browser_state_is_set_under_session_management_only() {
    let plan = |management: bool| plan_cookies("ses_1", 60, true, management, "https://op.test");
    assert_eq!(plan(true).browser_state_issuer.as_deref(), Some("https://op.test"));
    assert_eq!((plan(true).ttl_secs, plan(true).partitioned), (60, true));
    assert_eq!(plan(false).browser_state_issuer, None);
    let made = |management: bool| {
        session_cookies(plan(management), "s=1".to_owned(), "o=1".to_owned())
    };
    assert_eq!(made(true).session_id(), "ses_1");
    assert_eq!(made(true).header_values(), vec!["s=1", "o=1"]);
    assert_eq!(made(false).header_values(), vec!["s=1"]);
}

#[test]
fn a_session_that_was_replaced_is_signalled() {
    let signal = |prior: Option<&str>, outcome: PriorSessionOutcome| {
        transition_signal("tnt_1", "env_1", prior, "ses_2", outcome)
    };
    let rotated = signal(Some("ses_1"), PriorSessionOutcome::Carried).expect("signalled");
    assert_eq!(rotated.cause, SessionSignalCause::Rotated);
    assert_eq!(rotated.successor_session_id.as_deref(), Some("ses_2"));
    let foreign =
        signal(Some("ses_1"), PriorSessionOutcome::RevokedForeignSubject).expect("signalled");
    assert_eq!(foreign.cause, SessionSignalCause::ReplacedByOtherSubject);
    assert_eq!(foreign.successor_session_id, None);
    assert!(signal(Some("ses_1"), PriorSessionOutcome::Nothing).is_none());
    assert!(signal(None, PriorSessionOutcome::Carried).is_none());
}

#[test]
fn a_redirect_carries_where_to_return_to() {
    let location = |reply: ironauth_oidc::reply::Reply| reply.headers[0].1.clone();
    assert_eq!(interaction_url("/login", "/authorize?a=1"), "/login?return_to=%2Fauthorize%3Fa%3D1");
    assert_eq!(location(register_redirect("/x")), "/register?return_to=%2Fx");
    assert_eq!(location(consent_redirect("/x")), "/consent?return_to=%2Fx");
    assert_eq!(location(passkey_reauth_redirect("/x")), "/login?return_to=%2Fx&passkey=1");
    assert_eq!(location(mfa_challenge_redirect("/x", true)), "/login/mfa?return_to=%2Fx&enroll=1");
    assert_eq!(location(mfa_challenge_redirect("/x", false)), "/login/mfa?return_to=%2Fx");
    let cookies = SessionCookies {
        session_id: "ses_1".to_owned(),
        session: "s=1".to_owned(),
        op_browser_state: Some("o=1".to_owned()),
    };
    let reply = redirect_setting_cookie("/x", &cookies);
    let set = reply.headers.iter().filter(|(name, _)| name == "set-cookie").count();
    assert_eq!((reply.status, set), (303, 2));
    let refused = redirect_setting_cookie("/x\n", &cookies);
    assert_eq!((refused.status, refused.headers.len()), (500, 0));
    let broken = SessionCookies { session: "s\u{7f}".to_owned(), ..cookies.clone() };
    assert_eq!(redirect_setting_cookie("/x", &broken).status, 500);
    assert_eq!(redirect("/x\r\nset-cookie: a").status, 500);
    assert_eq!(redirect("/x\t\u{e9}").status, 303);
    assert_eq!(cookies.session_id(), "ses_1");
    assert_eq!(forbidden_page().status, 403);
    assert_eq!(connector_unavailable_page("misconfigured").status, 503);
}
