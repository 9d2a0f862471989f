use ironauth_oidc::authn::{AuthMethod, AuthenticationEvent};
use ironauth_oidc::hashing_pool::HashRejection;
use ironauth_oidc::headers::Headers;
use ironauth_oidc::interaction::{EstablishSessionError, SessionCookies};
use ironauth_oidc::magic_link::{
    confirm_get, confirm_link, consume_post, generate_hex, generate_token, join_token, script_nonce,
    send, ConfirmQuery, ConfirmView, ConsumeForm, ConsumeRequest, ConsumeStep, LinkSettings,
    MagicLinkChallenge, SendBody, SendRequest, SendStep,
};
use ironauth_oidc::scope_map::Scope;
use ironauth_oidc::util::query_get;

fn scope() -> Scope {
    Scope::new("tnt_1", "env_1")
}

fn settings(fragment: bool) -> LinkSettings {
    LinkSettings {
        enabled: true,
        fragment,
        self_origin: Some("https://op.test".to_owned()),
        ttl_micros: 600_000_000,
        ttl_secs: 600,
    }
}

#[test]
fn a_token_holds_its_handle_and_its_secret() {
    let token = generate_token("mlk_1", [0xff; 32]);
    assert_eq!(token, "ira_mlk_mlk_1~__________________________________________8");
    assert_eq!(join_token("a", "b"), "ira_mlk_a~b");
}

#[test]
fn chance_is_written_in_hexadecimal() {
    assert_eq!(generate_hex(&[0x00, 0x9f, 0xa0]), "009fa0");
    assert_eq!(script_nonce([1; 16]), "01".repeat(16));
}

#[test]
fn a_link_carries_its_token_in_the_fragment_or_in_the_query() {
    let fragment = confirm_link(Some("https://op.test"), &scope(), "ira_mlk_a~b", true);
    assert_eq!(fragment, "https://op.test/t/tnt_1/e/env_1/magic/confirm#ira_mlk_a~b");
    let query = confirm_link(Some("https://op.test"), &scope(), "a+b &c", false);
    assert_eq!(query, "https://op.test/t/tnt_1/e/env_1/magic/confirm?token=a%2Bb%20%26c");
    let (_, raw) = query.split_once('?').expect("a query");
    assert_eq!(query_get(raw, "token").as_deref(), Some("a+b &c"));
    assert_eq!(
        confirm_link(None, &scope(), "t", true),
        "/t/tnt_1/e/env_1/magic/confirm#t"
    );
}

fn request() -> SendRequest {
    SendRequest {
        scope: Some(scope()),
        settings: settings(true),
        over_quota: Some(false),
        body: SendBody {
            identifier: Some(" ada@example.test ".to_owned()),
            purpose: None,
        },
        purpose: Some("login".to_owned()),
        binding_secret: "1".to_owned(),
        binding_cookie: "b=1".to_owned(),
        throttled: Some(false),
        user: Some(Some("usr_1".to_owned())),
        token: "ira_mlk_a~b".to_owned(),
        short_code: "123456".to_owned(),
        code_hash: Some(Ok("phc".to_owned())),
        now_micros: 1_000,
        issued: Some(true),
        delivered: true,
    }
}

fn answer(q: &SendRequest) -> (u16, String, Option<String>) {
    match send(q) {
        SendStep::Answer { notice, cookie } => (notice.status, notice.title.to_owned(), cookie),
        other => panic!("expected an answer, got {other:?}"),
    }
}

#[test]
fn asking_for_a_link_is_answered_alike_for_every_account() {
    let there = answer(&request());
    assert_eq!(
        there,
        (200, "Check your email".to_owned(), Some("b=1".to_owned()))
    );
    let mut missing = request();
    missing.user = Some(None);
    assert_eq!(answer(&missing), there);
    let mut unstored = request();
    unstored.issued = Some(false);
    assert_eq!(answer(&unstored), there);
    let mut unhashed = request();
    for rejection in [HashRejection::PoolExhausted, HashRejection::Unavailable] {
        unhashed.code_hash = Some(Err(rejection));
        assert_eq!(answer(&unhashed), there);
    }
    let mut blank = request();
    blank.body.identifier = None;
    assert_eq!(answer(&blank), there);
}

#[test]
fn a_link_is_hashed_stored_and_sent_in_order() {
    let mut q = request();
    q.code_hash = None;
    assert_eq!(send(&q), SendStep::HashCode("123456".to_owned()));
    q.code_hash = Some(Ok("phc".to_owned()));
    q.issued = None;
    assert_eq!(
        send(&q),
        SendStep::Issue {
            subject: "usr_1".to_owned(),
            purpose: "login".to_owned(),
            token: "ira_mlk_a~b".to_owned(),
            short_code_hash: "phc".to_owned(),
            binding: "1".to_owned(),
            recipient: "ada@example.test".to_owned(),
            expires_at_unix_micros: 600_001_000,
        }
    );
    q.settings.ttl_micros = u128::MAX;
    assert!(matches!(
        send(&q),
        SendStep::Issue { expires_at_unix_micros: i64::MAX, .. }
    ));
    q.issued = Some(true);
    q.delivered = false;
    assert!(matches!(
        send(&q),
        SendStep::Deliver { link, earnest: true, .. } if link.ends_with("#ira_mlk_a~b")
    ));
    q.user = Some(None);
    assert!(matches!(
        send(&q),
        SendStep::Deliver { link, short_code, earnest: false, .. }
            if link.is_empty() && short_code.is_empty()
    ));
}

#[test]
fn a_request_for_a_link_is_turned_away_where_it_has_to_be() {
    let mut q = request();
    q.throttled = Some(true);
    assert_eq!(answer(&q).0, 429);
    assert_eq!(answer(&q).2, Some("b=1".to_owned()));
    q.throttled = None;
    assert!(matches!(send(&q), SendStep::Regulate { .. }));
    q.throttled = Some(false);
    q.user = None;
    assert_eq!(send(&q), SendStep::LookUp("ada@example.test".to_owned()));
    q.purpose = None;
    assert_eq!(answer(&q), (200, "Check your email".to_owned(), None));
    q.over_quota = Some(true);
    assert_eq!(send(&q), SendStep::OverQuota);
    q.over_quota = None;
    assert_eq!(send(&q), SendStep::ChargeQuota);
    q.settings.enabled = false;
    assert_eq!(answer(&q).0, 400);
    let mut q = request();
    q.scope = None;
    assert_eq!(answer(&q).0, 400);
}

#[test]
fn opening_a_link_shows_a_page_and_no_more() {
    let open_link = |fragment: bool| {
        confirm_get(
            Some(scope()),
            &settings(fragment),
            ConfirmQuery {
                token: Some("t".to_owned()),
            },
            "n".to_owned(),
        )
    };
    assert_eq!(
        open_link(true),
        ConfirmView::Page {
            action: "/t/tnt_1/e/env_1/magic/consume".to_owned(),
            token: None,
            script_nonce: Some("n".to_owned()),
        }
    );
    assert_eq!(
        open_link(false),
        ConfirmView::Page {
            action: "/t/tnt_1/e/env_1/magic/consume".to_owned(),
            token: Some("t".to_owned()),
            script_nonce: None,
        }
    );
}

fn consumption() -> ConsumeRequest {
    ConsumeRequest {
        scope: Some(scope()),
        enabled: true,
        over_quota: Some(false),
        headers: Headers::new(),
        self_origin: Some("https://op.test".to_owned()),
        throttled: Some(false),
        binding: Some("b".to_owned()),
        form: ConsumeForm {
            token: Some(" t ".to_owned()),
            short_code: None,
        },
        found: None,
        spent: false,
        matched: None,
        consumed: None,
        subject_in_scope: true,
        session: None,
        now_micros: 6,
    }
}

fn link() -> MagicLinkChallenge {
    MagicLinkChallenge {
        subject: "usr_1".to_owned(),
        short_code_hash: "phc".to_owned(),
    }
}

fn status(q: &ConsumeRequest) -> u16 {
    match consume_post(q) {
        ConsumeStep::Answer(notice) => notice.status,
        other => panic!("expected a notice, got {other:?}"),
    }
}

#[test]
fn a_link_is_consumed_once_in_the_browser_that_asked_for_it() {
    let mut q = consumption();
    assert_eq!(
        consume_post(&q),
        ConsumeStep::FindByToken {
            token: "t".to_owned(),
            binding: "b".to_owned(),
        }
    );
    q.found = Some(Ok(Some(link())));
    assert_eq!(
        consume_post(&q),
        ConsumeStep::Consume {
            subject: "usr_1".to_owned(),
        }
    );
    q.consumed = Some(Ok(Some("usr_1".to_owned())));
    assert_eq!(
        consume_post(&q),
        ConsumeStep::Establish {
            subject: "usr_1".to_owned(),
            event: AuthenticationEvent {
                methods: vec![AuthMethod::EmailOtp],
                auth_time_unix_micros: 6,
            },
        }
    );
    q.session = Some(Ok(SessionCookies {
        session_id: "ses_1".to_owned(),
        session: "s=1".to_owned(),
        op_browser_state: Some("o=1".to_owned()),
    }));
    match consume_post(&q) {
        ConsumeStep::SignedIn { notice, cookies } => {
            assert_eq!(notice.title, "You are signed in");
            assert_eq!(cookies, vec!["s=1", "o=1"]);
        }
        other => panic!("expected a sign-in, got {other:?}"),
    }
    q.session = Some(Err(EstablishSessionError::NotAuthenticatable));
    assert_eq!(status(&q), 400);
    q.session = Some(Err(EstablishSessionError::Store));
    assert_eq!(status(&q), 500);
    q.subject_in_scope = false;
    assert_eq!(status(&q), 500);
    q.consumed = Some(Ok(None));
    assert_eq!(status(&q), 400);
    q.consumed = Some(Err(()));
    assert_eq!(status(&q), 500);
    q.found = Some(Ok(None));
    assert_eq!(status(&q), 400);
    q.found = Some(Err(()));
    assert_eq!(status(&q), 500);
}

#[test]
fn another_device_does_not_consume_a_link() {
    let mut q = consumption();
    q.binding = None;
    q.found = Some(Ok(Some(link())));
    assert_eq!(consume_post(&q), ConsumeStep::CrossDevice);
    q.form.short_code = Some("123456".to_owned());
    assert_eq!(status(&q), 400);
}

#[test]
fn a_short_code_is_verified_on_the_first_device() {
    let mut q = consumption();
    q.form.short_code = Some(" 123456 ".to_owned());
    assert_eq!(
        consume_post(&q),
        ConsumeStep::FindByBinding {
            binding: "b".to_owned(),
        }
    );
    q.found = Some(Ok(None));
    assert_eq!(
        consume_post(&q),
        ConsumeStep::SpendAbsent {
            code: "123456".to_owned(),
        }
    );
    q.spent = true;
    assert_eq!(status(&q), 400);
    q.found = Some(Ok(Some(link())));
    assert_eq!(
        consume_post(&q),
        ConsumeStep::VerifyCode {
            code: "123456".to_owned(),
            hash: "phc".to_owned(),
        }
    );
    q.matched = Some(Ok(false));
    assert_eq!(status(&q), 400);
    q.matched = Some(Err(HashRejection::PoolExhausted));
    assert!(matches!(consume_post(&q), ConsumeStep::Rejected(reply) if reply.status == 503));
    q.matched = Some(Ok(true));
    assert!(matches!(consume_post(&q), ConsumeStep::Consume { .. }));
}

#[test]
fn a_consumption_is_turned_away_where_it_has_to_be() {
    let mut q = consumption();
    q.form.token = Some("  ".to_owned());
    assert_eq!(status(&q), 400);
    q.throttled = Some(true);
    assert_eq!(status(&q), 429);
    q.throttled = None;
    assert_eq!(consume_post(&q), ConsumeStep::Regulate);
    q.headers.insert("sec-fetch-site".to_owned(), "cross-site".to_owned());
    assert_eq!(status(&q), 403);
    q.over_quota = Some(true);
    assert_eq!(consume_post(&q), ConsumeStep::OverQuota);
    q.over_quota = None;
    assert_eq!(consume_post(&q), ConsumeStep::ChargeQuota);
    q.enabled = false;
    assert_eq!(status(&q), 400);
}
