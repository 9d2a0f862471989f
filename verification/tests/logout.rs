use base64::engine::general_purpose::URL_SAFE_NO_PAD;
use base64::Engine;
use ironauth_oidc::global_revocation::SessionSignalCause;
use ironauth_oidc::headers::Headers;
use ironauth_oidc::logout::{
    attribute, audience_client, confirmation_prompt, end_session_get, end_session_post,
    handle_client, logout_redirect, revoke_and_signal, validated_redirect, Attributed, LogoutParams,
    LogoutRequest, LogoutStep,
};

fn token(claims: &str) -> String {
    format!("h.{}.s", URL_SAFE_NO_PAD.encode(claims))
}

#[test]
fn the_client_is_the_first_audience_of_the_hint() {
    assert_eq!(audience_client(&token(r#"{"aud":"cli_1"}"#)).as_deref(), Some("cli_1"));
    assert_eq!(
        audience_client(&token(r#"{"aud":[7,"cli_2","cli_3"]}"#)).as_deref(),
        Some("cli_2")
    );
    for none in [r#"{"aud":[]}"#, r#"{"aud":7}"#, "{}", "not json"] {
        assert_eq!(audience_client(&token(none)), None, "{none}");
    }
    assert_eq!(audience_client("no-segments"), None);
    assert_eq!(
        attribute(&token(r#"{"aud":"cli_1"}"#), Some(" cli_9 ")).as_deref(),
        Some("cli_9")
    );
}

fn params() -> LogoutParams {
    LogoutParams {
        id_token_hint: Some(token(r#"{"aud":"cli_1"}"#)),
        post_logout_redirect_uri: Some("https://rp.test/out?x=1".to_owned()),
        state: Some("a b".to_owned()),
        ..LogoutParams::default()
    }
}

fn request() -> LogoutRequest {
    LogoutRequest {
        params: params(),
        headers: Headers::new(),
        self_origin: Some("https://op.test".to_owned()),
        attributed: Some(Some(Attributed {
            client_id: "cli_1".to_owned(),
            sid: Some("sid_1".to_owned()),
        })),
        target: Some(Some("ses_1".to_owned())),
        cookie_in_scope: Some("ses_1".to_owned()),
        cookie_declared: Some("ses_1".to_owned()),
        revoked: true,
        registered: Some(Some(vec!["https://rp.test/out?x=1".to_owned()])),
    }
}

fn signed_out(session: &str) -> LogoutStep {
    LogoutStep::Revoke {
        session: session.to_owned(),
        cause: SessionSignalCause::LoggedOut,
        hard_kill: false,
    }
}

#[test]
fn a_redirect_is_registered_letter_for_letter() {
    let registered = |uri: &str| Some(vec![uri.to_owned()]);
    assert_eq!(
        validated_redirect(&params(), &registered("https://rp.test/out?x=1")).as_deref(),
        Some("https://rp.test/out?x=1&state=a%20b")
    );
    for near in ["https://rp.test/out?x=1/", "https://RP.test/out?x=1", "https://rp.test/out"] {
        assert_eq!(validated_redirect(&params(), &registered(near)), None, "{near}");
    }
    assert_eq!(validated_redirect(&params(), &None), None);
    let bare = LogoutParams {
        state: None,
        post_logout_redirect_uri: Some("https://rp.test/out".to_owned()),
        ..LogoutParams::default()
    };
    assert_eq!(
        validated_redirect(&bare, &registered("https://rp.test/out")).as_deref(),
        Some("https://rp.test/out")
    );
}

#[test]
fn a_hint_ends_its_session_and_sends_its_browser_back() {
    let mut q = request();
    assert_eq!(
        end_session_get(&q),
        LogoutStep::Redirect("https://rp.test/out?x=1&state=a%20b".to_owned())
    );
    q.registered = Some(Some(Vec::new()));
    assert_eq!(end_session_get(&q), LogoutStep::LoggedOut);
    q.registered = None;
    assert_eq!(end_session_get(&q), LogoutStep::FindClient("cli_1".to_owned()));
    q.params.post_logout_redirect_uri = None;
    assert_eq!(end_session_get(&q), LogoutStep::LoggedOut);
    q.revoked = false;
    assert_eq!(end_session_get(&q), signed_out("ses_1"));
    q.target = None;
    assert_eq!(end_session_get(&q), LogoutStep::FindSession("sid_1".to_owned()));
    q.attributed = None;
    assert!(matches!(
        end_session_get(&q),
        LogoutStep::VerifyHint { client_id, .. } if client_id == "cli_1"
    ));
}

#[test]
fn the_browser_of_another_session_is_left_alone() {
    let mut q = request();
    q.cookie_in_scope = Some("ses_2".to_owned());
    q.revoked = false;
    assert_eq!(end_session_get(&q), signed_out("ses_1"));
    q.revoked = true;
    assert_eq!(end_session_get(&q), LogoutStep::LoggedOutElsewhere);
    q.cookie_in_scope = None;
    assert_eq!(end_session_get(&q), LogoutStep::LoggedOutElsewhere);
    q.target = Some(None);
    q.cookie_in_scope = Some("ses_1".to_owned());
    assert_eq!(end_session_get(&q), LogoutStep::LoggedOutElsewhere);
}

#[test]
fn a_bare_link_asks_and_a_form_ends_the_session() {
    let mut q = request();
    q.attributed = Some(None);
    assert!(matches!(end_session_get(&q), LogoutStep::Ask(_)));
    q.revoked = false;
    assert_eq!(end_session_post(&q), signed_out("ses_1"));
    q.revoked = true;
    assert_eq!(end_session_post(&q), LogoutStep::LoggedOut);
    q.cookie_declared = None;
    assert_eq!(end_session_post(&q), LogoutStep::LoggedOut);
    q.headers.insert("origin".to_owned(), "https://evil.test".to_owned());
    assert!(matches!(end_session_post(&q), LogoutStep::Refuse(n) if n.status == 403));
    let mut q = request();
    q.attributed = Some(Some(Attributed {
        client_id: "cli_1".to_owned(),
        sid: None,
    }));
    assert!(matches!(end_session_get(&q), LogoutStep::Ask(_)));
    let mut q = request();
    q.params.id_token_hint = None;
    assert!(matches!(end_session_get(&q), LogoutStep::Ask(_)));
    assert!(matches!(handle_client(&request(), None, false), LogoutStep::Ask(_)));
}

#[test]
fn the_prompt_carries_the_parameters_over() {
    let fields = confirmation_prompt(&params());
    let names: Vec<&str> = fields.iter().map(|(name, _)| name.as_str()).collect();
    assert_eq!(
        names,
        vec![
            "id_token_hint",
            "client_id",
            "logout_hint",
            "state",
            "ui_locales",
            "post_logout_redirect_uri",
        ]
    );
    assert_eq!(fields[3].1, "a b");
    assert_eq!(fields[1].1, "");
}

#[test]
fn a_logout_redirect_clears_the_cookie() {
    let reply = logout_redirect("https://rp.test/", "s=; Max-Age=0");
    assert_eq!(reply.status, 303);
    assert_eq!(
        reply.headers,
        vec![
            ("location".to_owned(), "https://rp.test/".to_owned()),
            ("set-cookie".to_owned(), "s=; Max-Age=0".to_owned()),
            ("cache-control".to_owned(), "no-store".to_owned()),
            ("referrer-policy".to_owned(), "no-referrer".to_owned()),
        ]
    );
    assert_eq!(logout_redirect("https://rp.test/\n", "s=").status, 500);
    assert_eq!(logout_redirect("https://rp.test/", "s=\u{0}").status, 500);
}

#[test]
fn only_a_live_session_signals_its_end() {
    assert_eq!(revoke_and_signal("tnt_1", "env_1", "ses_1", false), None);
    let event = revoke_and_signal("tnt_1", "env_1", "ses_1", true).expect("an event");
    assert_eq!(event.session_id, "ses_1");
    assert_eq!(event.cause, SessionSignalCause::LoggedOut);
    assert_eq!(event.successor_session_id, None);
}
