use ironauth_oidc::authn::{AuthMethod, AuthenticationEvent};
use ironauth_oidc::hashing_pool::HashRejection;
use ironauth_oidc::headers::Headers;
use ironauth_oidc::interaction::{AuthenticatedSession, EstablishSessionError, SessionCookies};
use ironauth_oidc::login::{
    combine, complete_lazy_migration, forgets_failures, login_get, login_post,
    maybe_remember_device, mfa_challenge_get, mfa_challenge_post, passkey_nonce,
    remember_device_offered, resume, should_remember_device, spend_native_verify, upgrade_credential_after_login, Challenge,
    ChallengeStep, CredentialUpgrade, LoginAttempt, LoginForm, LoginStep, LoginView,
    MfaChallengeForm, MfaChallengeQuery, Migration, MigrationOutcome, MigrationStep, NativeSpend,
    PasskeyOffer, ResumeQuery, SchemaVerdict, SecondFactorOutcome, TrustedDevices, UserRecord,
};
use ironauth_oidc::reply::Reply;
use ironauth_oidc::scope_map::Scope;

const RETURN_TO: &str = "/authorize?client_id=cli_1&login_hint=ada&ui_locales=fr";

fn scope() -> Option<Scope> {
    Some(Scope::new("tnt_1", "env_1"))
}

fn cookies() -> SessionCookies {
    SessionCookies {
        session_id: "ses_1".to_owned(),
        session: "s=1".to_owned(),
        op_browser_state: None,
    }
}

fn user() -> UserRecord {
    UserRecord {
        id: "usr_1".to_owned(),
        can_authenticate: true,
        has_usable_password_hash: true,
        password_hash: "phc".to_owned(),
        foreign_password_hash: None,
    }
}

fn attempt() -> LoginAttempt {
    LoginAttempt {
        form: LoginForm {
            identifier: Some(" ada ".to_owned()),
            password: Some(" pw ".to_owned()),
            return_to: Some(RETURN_TO.to_owned()),
        },
        scope: scope(),
        headers: Headers::new(),
        self_origin: Some("https://op.test".to_owned()),
        lookup: None,
        throttled: None,
        native: None,
        absent: None,
        foreign: None,
        blocked: None,
        session: None,
        has_hook: false,
        hook: None,
        migration: None,
        now_micros: 9,
    }
}

fn known(record: UserRecord) -> LoginAttempt {
    LoginAttempt {
        lookup: Some(Ok(Some(record))),
        throttled: Some(false),
        ..attempt()
    }
}

#[test]
fn the_login_page_prefills_the_hint_and_offers_a_passkey() {
    let query = |passkey: Option<&str>| ResumeQuery {
        return_to: Some(RETURN_TO.to_owned()),
        passkey: passkey.map(str::to_owned),
    };
    let offer = || {
        Some(PasskeyOffer {
            nonce: "n".to_owned(),
            signal_api: true,
        })
    };
    match login_get(query(None), scope(), offer()) {
        LoginView::Page(page) => {
            assert_eq!(page.status, 200);
            assert_eq!(page.identifier, "ada");
            assert_eq!(page.hints.ui_locales(), Some("fr"));
            assert!(page.password_form);
            let ui = page.passkey.expect("a passkey is offered");
            assert_eq!(ui.scope_path, "/t/tnt_1/e/env_1");
            assert_eq!(ui.nonce, "n");
        }
        LoginView::Nothing(_) => panic!("a valid target has a page"),
    }
    match login_get(query(Some("1")), scope(), offer()) {
        LoginView::Page(page) => {
            assert!(!page.password_form, "only a passkey will do");
            assert_eq!(page.identifier, "");
        }
        LoginView::Nothing(_) => panic!("a valid target has a page"),
    }
    match login_get(query(Some("1")), scope(), None) {
        LoginView::Page(page) => assert!(page.password_form && page.passkey.is_none()),
        LoginView::Nothing(_) => panic!("a valid target has a page"),
    }
    match login_get(query(None), None, None) {
        LoginView::Nothing(notice) => assert_eq!(notice.status, 400),
        LoginView::Page(_) => panic!("a client without a scope has no page"),
    }
}

#[test]
fn a_sign_in_goes_from_the_lookup_to_the_redirect() {
    let mut a = attempt();
    assert_eq!(login_post(&a), LoginStep::LookUp("ada".to_owned()));
    a.lookup = Some(Ok(Some(user())));
    assert_eq!(
        login_post(&a),
        LoginStep::Regulate {
            identifier: "ada".to_owned(),
            account: Some("usr_1".to_owned()),
            client_id: "cli_1".to_owned(),
        }
    );
    a.throttled = Some(false);
    assert_eq!(
        login_post(&a),
        LoginStep::Verify {
            password: " pw ".to_owned(),
            hash: "phc".to_owned(),
        }
    );
    a.native = Some(Ok(true));
    assert_eq!(
        login_post(&a),
        LoginStep::EvaluateRisk {
            user: "usr_1".to_owned(),
            native: true,
        }
    );
    a.blocked = Some(false);
    assert_eq!(
        login_post(&a),
        LoginStep::Establish {
            subject: "usr_1".to_owned(),
            event: AuthenticationEvent {
                methods: vec![AuthMethod::Password],
                auth_time_unix_micros: 9,
            },
        }
    );
    a.session = Some(Ok(cookies()));
    match login_post(&a) {
        LoginStep::Resumed(reply) => {
            assert_eq!(reply.status, 303);
            assert!(reply.headers.contains(&("location".to_owned(), RETURN_TO.to_owned())));
            assert!(reply.headers.contains(&("set-cookie".to_owned(), "s=1".to_owned())));
        }
        other => panic!("expected a redirect, got {other:?}"),
    }
    a.session = Some(Err(EstablishSessionError::Store));
    assert!(matches!(login_post(&a), LoginStep::Notice(n) if n.status == 500));
}

#[test]
fn the_request_to_return_to_needs_a_client_with_a_scope() {
    let raw = Some(RETURN_TO.to_owned());
    let target = resume(&raw, &scope()).expect("a local path of a client with a scope");
    assert_eq!(target.return_to, RETURN_TO);
    assert_eq!(target.client_id, "cli_1");
    assert_eq!(target.hints.ui_locales(), Some("fr"));
    assert!(resume(&raw, &None).is_none());
    assert!(resume(&None, &scope()).is_none());
    assert!(resume(&Some("//evil.test/authorize?client_id=cli_1".to_owned()), &scope()).is_none());
}

#[test]
fn failures_are_forgotten_after_a_sign_in_and_after_a_migration() {
    let mut a = known(user());
    assert!(!forgets_failures(&a));
    a.session = Some(Err(EstablishSessionError::Store));
    assert!(!forgets_failures(&a));
    a.session = Some(Ok(cookies()));
    assert!(forgets_failures(&a));
    let mut a = attempt();
    for (outcome, forgotten) in [
        (MigrationOutcome::Begun(cookies()), true),
        (MigrationOutcome::Fault, true),
        (MigrationOutcome::Fenced, true),
        (MigrationOutcome::Refused, false),
    ] {
        a.migration = Some(outcome);
        assert_eq!(forgets_failures(&a), forgotten);
    }
}

#[test]
fn every_failed_sign_in_shows_one_page() {
    let mut pages = Vec::new();
    let mut wrong = known(user());
    wrong.native = Some(Ok(false));
    pages.push(login_post(&wrong));

    let mut fenced = known(UserRecord {
        can_authenticate: false,
        ..user()
    });
    fenced.native = Some(Ok(true));
    pages.push(login_post(&fenced));

    let mut fenced_since = known(user());
    fenced_since.native = Some(Ok(true));
    fenced_since.blocked = Some(false);
    fenced_since.session = Some(Err(EstablishSessionError::NotAuthenticatable));
    pages.push(login_post(&fenced_since));

    let mut fenced_import = known(UserRecord {
        can_authenticate: false,
        has_usable_password_hash: false,
        foreign_password_hash: Some("bcrypt".to_owned()),
        ..user()
    });
    assert!(matches!(login_post(&fenced_import), LoginStep::VerifyForeign { .. }));
    for verified in [true, false] {
        fenced_import.foreign = Some(verified);
        pages.push(login_post(&fenced_import));
    }

    let mut missing = attempt();
    missing.lookup = Some(Ok(None));
    missing.throttled = Some(false);
    assert_eq!(
        login_post(&missing),
        LoginStep::SpendAbsent {
            password: " pw ".to_owned(),
        }
    );
    missing.absent = Some(Ok(()));
    pages.push(login_post(&missing));

    for step in &pages {
        assert_eq!(step, &pages[0]);
        assert!(matches!(step, LoginStep::Failed(page) if page.status == 200
            && page.error == Some("Incorrect identifier or password.")));
    }

    let mut blocked = known(user());
    blocked.native = Some(Ok(true));
    blocked.blocked = Some(true);
    match (login_post(&blocked), &pages[0]) {
        (LoginStep::Blocked(one), LoginStep::Failed(other)) => assert_eq!(&one, other),
        other => panic!("expected the same page, got {other:?}"),
    }
}

#[test]
fn a_throttled_attempt_spends_nothing_and_tells_nothing() {
    let mut there = attempt();
    there.lookup = Some(Ok(Some(user())));
    there.throttled = Some(true);
    let mut missing = attempt();
    missing.lookup = Some(Ok(None));
    missing.throttled = Some(true);
    assert_eq!(login_post(&there), login_post(&missing));
    assert!(matches!(login_post(&there), LoginStep::Throttled(page) if page.status == 429));
}

#[test]
fn a_form_of_another_site_is_refused_before_the_lookup() {
    let mut a = attempt();
    a.headers.insert("origin".to_owned(), "https://evil.test".to_owned());
    assert!(matches!(login_post(&a), LoginStep::Notice(n) if n.status == 403));
    a.form.return_to = Some("https://evil.test/".to_owned());
    assert!(matches!(login_post(&a), LoginStep::Notice(n) if n.status == 400));
}

#[test]
fn an_imported_password_is_tried_where_the_own_one_fails() {
    let imported = || UserRecord {
        has_usable_password_hash: false,
        foreign_password_hash: Some("bcrypt".to_owned()),
        ..user()
    };
    assert_eq!(spend_native_verify(&imported()), NativeSpend::Foreign);
    let mut a = known(imported());
    assert_eq!(
        login_post(&a),
        LoginStep::VerifyForeign {
            password: " pw ".to_owned(),
            hash: "bcrypt".to_owned(),
        }
    );
    a.foreign = Some(true);
    assert_eq!(
        login_post(&a),
        LoginStep::EvaluateRisk {
            user: "usr_1".to_owned(),
            native: false,
        }
    );
    a.foreign = Some(false);
    assert!(matches!(login_post(&a), LoginStep::Failed(_)));
}

#[test]
fn an_account_without_a_password_spends_like_one_that_is_not_there() {
    let bare = || UserRecord {
        has_usable_password_hash: false,
        ..user()
    };
    assert_eq!(spend_native_verify(&bare()), NativeSpend::Absent);
    assert_eq!(spend_native_verify(&user()), NativeSpend::Verify);
    let mut a = known(bare());
    assert!(matches!(login_post(&a), LoginStep::SpendAbsent { .. }));
    a.absent = Some(Err(HashRejection::PoolExhausted));
    assert!(matches!(login_post(&a), LoginStep::Rejected(reply) if reply.status == 503));
    a.absent = Some(Ok(()));
    assert!(matches!(login_post(&a), LoginStep::Failed(_)));
}

#[test]
fn an_unknown_account_is_asked_for_where_accounts_were_kept() {
    let mut a = attempt();
    a.lookup = Some(Ok(None));
    a.throttled = Some(false);
    a.has_hook = true;
    assert!(matches!(login_post(&a), LoginStep::AskHook { .. }));
    a.hook = Some(true);
    assert!(matches!(login_post(&a), LoginStep::Migrate { .. }));
    a.migration = Some(MigrationOutcome::Begun(cookies()));
    assert!(matches!(login_post(&a), LoginStep::Resumed(_)));
    a.migration = Some(MigrationOutcome::Fenced);
    assert!(matches!(login_post(&a), LoginStep::Failed(_)));
    a.migration = Some(MigrationOutcome::Fault);
    assert!(matches!(login_post(&a), LoginStep::Notice(n) if n.status == 500));
    a.migration = Some(MigrationOutcome::Refused);
    assert!(matches!(login_post(&a), LoginStep::SpendAbsent { .. }));
    a.hook = Some(false);
    assert!(matches!(login_post(&a), LoginStep::SpendAbsent { .. }));
    a.lookup = Some(Err(()));
    assert!(matches!(login_post(&a), LoginStep::Notice(n) if n.status == 500));
}

#[test]
fn a_password_is_upgraded_where_that_is_due() {
    assert_eq!(upgrade_credential_after_login(true, false), CredentialUpgrade::Keep);
    assert_eq!(upgrade_credential_after_login(true, true), CredentialUpgrade::RehashNative);
    assert_eq!(upgrade_credential_after_login(false, false), CredentialUpgrade::RehashForeign);
}

fn migration() -> Migration {
    Migration {
        identifier: "ada".to_owned(),
        hash: Some(Ok("phc".to_owned())),
        traits: serde_json::from_str(r#"{"name":"Ada"}"#).ok(),
        schema: None,
        created: None,
        session: None,
        now_micros: 8,
    }
}

#[test]
fn a_migration_keeps_only_traits_that_the_schema_accepts() {
    let mut m = migration();
    assert_eq!(complete_lazy_migration(&m), MigrationStep::LoadSchema);
    m.schema = Some(Ok(Some(SchemaVerdict {
        version: 3,
        compiled: true,
        valid: true,
    })));
    match complete_lazy_migration(&m) {
        MigrationStep::Create(made) => {
            assert_eq!(made.identifier, "ada");
            assert_eq!(made.password_hash, "phc");
            assert_eq!(made.traits_json.as_deref(), Some(r#"{"name":"Ada"}"#));
            assert_eq!(made.traits_schema_version, Some(3));
        }
        other => panic!("expected an account, got {other:?}"),
    }
    for (compiled, valid) in [(false, true), (true, false)] {
        m.schema = Some(Ok(Some(SchemaVerdict {
            version: 3,
            compiled,
            valid,
        })));
        assert_eq!(complete_lazy_migration(&m), MigrationStep::Refused);
    }
    m.schema = Some(Err(()));
    assert_eq!(complete_lazy_migration(&m), MigrationStep::Refused);
    m.schema = Some(Ok(None));
    match complete_lazy_migration(&m) {
        MigrationStep::Create(made) => {
            assert!(made.traits_json.is_none() && made.traits_schema_version.is_none());
        }
        other => panic!("expected an account, got {other:?}"),
    }
    m.created = Some(Err(()));
    assert_eq!(complete_lazy_migration(&m), MigrationStep::Refused);
    m.created = Some(Ok("usr_9".to_owned()));
    assert_eq!(
        complete_lazy_migration(&m),
        MigrationStep::Establish {
            subject: "usr_9".to_owned(),
            event: AuthenticationEvent {
                methods: vec![AuthMethod::Password],
                auth_time_unix_micros: 8,
            },
        }
    );
    m.session = Some(Ok(cookies()));
    assert_eq!(complete_lazy_migration(&m), MigrationStep::Begun);
    m.session = Some(Err(EstablishSessionError::NotAuthenticatable));
    assert_eq!(complete_lazy_migration(&m), MigrationStep::Fenced);
    m.session = Some(Err(EstablishSessionError::Store));
    assert_eq!(complete_lazy_migration(&m), MigrationStep::Fault);
    m.hash = Some(Err(()));
    assert_eq!(complete_lazy_migration(&m), MigrationStep::Refused);
    m.hash = None;
    assert_eq!(complete_lazy_migration(&m), MigrationStep::Hash);
}

const ASKING: TrustedDevices = TrustedDevices {
    enabled: true,
    user_opt_in: true,
};

fn challenge() -> Challenge {
    Challenge {
        form: MfaChallengeForm {
            code: Some(" 123456 ".to_owned()),
            return_to: Some(RETURN_TO.to_owned()),
            remember_device: Some("on".to_owned()),
        },
        scope: scope(),
        headers: Headers::new(),
        self_origin: Some("https://op.test".to_owned()),
        devices: ASKING,
        session: Some(Some(AuthenticatedSession {
            session_id: "ses_1".to_owned(),
            subject: "usr_1".to_owned(),
            auth_time_unix_micros: 1,
            auth_methods: "pwd".to_owned(),
        })),
        subject_in_scope: true,
        throttled: None,
        outcome: None,
        established: None,
        now_micros: 7,
    }
}

#[test]
fn a_second_factor_upgrades_the_session() {
    let mut c = challenge();
    assert_eq!(mfa_challenge_post(&c), ChallengeStep::Regulate("usr_1".to_owned()));
    c.throttled = Some(false);
    assert_eq!(
        mfa_challenge_post(&c),
        ChallengeStep::Verify {
            subject: "usr_1".to_owned(),
            code: "123456".to_owned(),
        }
    );
    c.outcome = Some(SecondFactorOutcome::Totp);
    assert_eq!(
        mfa_challenge_post(&c),
        ChallengeStep::Establish {
            subject: "usr_1".to_owned(),
            event: AuthenticationEvent {
                methods: vec![AuthMethod::Password, AuthMethod::Totp],
                auth_time_unix_micros: 7,
            },
        }
    );
    c.established = Some(Ok(cookies()));
    match mfa_challenge_post(&c) {
        ChallengeStep::Resumed { reply, remember } => {
            assert_eq!(reply.status, 303);
            assert!(remember);
        }
        other => panic!("expected a redirect, got {other:?}"),
    }
}

#[test]
fn a_second_factor_that_fails_asks_again() {
    let page = |c: &Challenge| match mfa_challenge_post(c) {
        ChallengeStep::Page(page) => page,
        other => panic!("expected a page, got {other:?}"),
    };
    let mut c = challenge();
    c.form.code = Some("  ".to_owned());
    assert_eq!(page(&c).error, Some("Enter a code to continue."));
    let mut c = challenge();
    c.throttled = Some(true);
    assert_eq!(page(&c).status, 429);
    assert!(!page(&c).remember);
    c.throttled = Some(false);
    c.outcome = Some(SecondFactorOutcome::Invalid);
    assert_eq!(page(&c).error, Some("Incorrect or expired code."));
    let wrong = page(&c);
    for outcome in [SecondFactorOutcome::Totp, SecondFactorOutcome::Recovery] {
        c.outcome = Some(outcome);
        c.established = Some(Err(EstablishSessionError::NotAuthenticatable));
        assert_eq!(page(&c), wrong);
        c.established = Some(Err(EstablishSessionError::Store));
        assert!(matches!(mfa_challenge_post(&c), ChallengeStep::Notice(n) if n.status == 500));
    }
    for outcome in [SecondFactorOutcome::Unavailable, SecondFactorOutcome::Error] {
        c.outcome = Some(outcome);
        assert!(matches!(mfa_challenge_post(&c), ChallengeStep::Notice(n) if n.status == 500));
    }
    c.session = Some(None);
    assert!(matches!(mfa_challenge_post(&c), ChallengeStep::Redirect(reply) if reply.status == 303));
    c.session = None;
    assert_eq!(mfa_challenge_post(&c), ChallengeStep::FindSession);
}

#[test]
fn a_method_is_recorded_once() {
    assert_eq!(
        combine(vec![AuthMethod::Password, AuthMethod::Totp], AuthMethod::Totp),
        vec![AuthMethod::Password, AuthMethod::Totp]
    );
    assert_eq!(
        combine(vec![AuthMethod::Password], AuthMethod::RecoveryCode),
        vec![AuthMethod::Password, AuthMethod::RecoveryCode]
    );
}

#[test]
fn the_challenge_page_says_where_to_enrol() {
    let query = |enroll: Option<&str>| MfaChallengeQuery {
        return_to: Some(RETURN_TO.to_owned()),
        enroll: enroll.map(str::to_owned),
    };
    match mfa_challenge_get(&query(Some("1")), &scope(), Some(true), ASKING) {
        ChallengeStep::Page(page) => {
            assert_eq!(
                page.enroll_url.as_deref(),
                Some("/t/tnt_1/e/env_1/account/mfa/totp/enroll")
            );
            assert!(page.remember);
        }
        other => panic!("expected a page, got {other:?}"),
    }
    match mfa_challenge_get(&query(Some("0")), &scope(), Some(true), ASKING) {
        ChallengeStep::Page(page) => assert!(page.enroll_url.is_none()),
        other => panic!("expected a page, got {other:?}"),
    }
    assert!(matches!(
        mfa_challenge_get(&query(None), &scope(), Some(false), ASKING),
        ChallengeStep::Redirect(_)
    ));
    assert_eq!(
        mfa_challenge_get(&query(None), &scope(), None, ASKING),
        ChallengeStep::FindSession
    );
}

#[test]
fn a_device_is_remembered_where_the_tenant_or_the_user_decides_so() {
    let decided = TrustedDevices {
        enabled: true,
        user_opt_in: false,
    };
    let off = TrustedDevices {
        enabled: false,
        user_opt_in: true,
    };
    assert!(remember_device_offered(ASKING));
    assert!(!remember_device_offered(decided) && !remember_device_offered(off));
    for yes in ["1", "on", "true"] {
        assert!(should_remember_device(ASKING, Some(yes)));
    }
    assert!(!should_remember_device(ASKING, Some("yes")) && !should_remember_device(ASKING, None));
    assert!(should_remember_device(decided, None));
    assert!(!should_remember_device(off, Some("1")));
    let plain = || Reply {
        status: 303,
        headers: Vec::new(),
        body: String::new(),
    };
    assert_eq!(
        maybe_remember_device(plain(), Some("d=1")).headers,
        vec![("set-cookie".to_owned(), "d=1".to_owned())]
    );
    assert_eq!(maybe_remember_device(plain(), None), plain());
}

#[test]
fn a_nonce_is_lower_case_hexadecimal() {
    let mut bytes = [0_u8; 16];
    bytes[0] = 0x0a;
    bytes[15] = 0xff;
    assert_eq!(passkey_nonce(bytes), "0a0000000000000000000000000000ff");
}
