use base64::engine::general_purpose::URL_SAFE_NO_PAD;
use base64::Engine;
use ironauth_oidc::jose::JwsAlgorithm;
use ironauth_oidc::jwt_bearer::{
    access_record, allowed_algs, is_basic_scheme, jwt_bearer_grant, jwt_bearer_response,
    mint_and_persist, narrowed_audiences, passes_gate, record_diagnostic, resolve_issuer_keys,
    spend_optional_jti, validate_and_map, verify_external_assertion, AccessRecord, AssertionReject,
    ClientAuthError, DiagnosticReason, ExternalAssertionIssuer, GrantRequest, GrantStep, JtiOutcome,
    JwtBearerError, KeySource, MachineScope, MappedFederation, MappedPrincipal, MintStep,
    MintedAccessToken, Minting, PresentedClient, RejectReason, SubjectMapping, TokenError,
    Validation, ValidationStep, VerifiedAssertion, VerifyOutcome, ASYMMETRIC_ALGS,
};
use ironauth_oidc::token_credential::peek_unverified_claim;
use serde_json::Value;

fn issuer() -> ExternalAssertionIssuer {
    ExternalAssertionIssuer {
        audience_allow: None,
        issuer: "https://issuer.test".to_owned(),
        jwks: Some("{}".to_owned()),
        jwks_uri: None,
        signing_alg_allow: Some("ES512".to_owned()),
        enabled: true,
    }
}

#[test]
fn a_pinned_es512_allowlist_is_empty_and_a_multi_alg_allowlist_parses() {
    let mut record = issuer();
    assert!(
        allowed_algs(&record).is_empty(),
        "ES512 is unrepresentable, so the allowlist is empty"
    );

    record.signing_alg_allow = Some("EdDSA ES256 bogus".to_owned());
    assert_eq!(
        allowed_algs(&record),
        vec![JwsAlgorithm::EdDsa, JwsAlgorithm::Es256],
        "a multi-alg pin parses to its supported members and drops the unknown token"
    );

    record.signing_alg_allow = None;
    assert_eq!(allowed_algs(&record), ASYMMETRIC_ALGS.to_vec());
}

#[test]
fn peek_unverified_claim_reads_a_top_level_string() {
    let payload = URL_SAFE_NO_PAD.encode(br#"{"iss":"https://issuer.test","sub":"wl-1"}"#);
    let assertion = format!("aGVhZGVy.{payload}.c2ln");
    assert_eq!(
        peek_unverified_claim(&assertion, "iss").as_deref(),
        Some("https://issuer.test")
    );
    assert_eq!(
        peek_unverified_claim(&assertion, "sub").as_deref(),
        Some("wl-1")
    );
    assert!(peek_unverified_claim(&assertion, "aud").is_none());
    assert!(peek_unverified_claim("not-a-jws", "iss").is_none());
}

#[test]
fn verify_with_no_keys_fails_closed() {
    let keys: [u8; 0] = [];
    let rejected = verify_external_assertion(
        &keys,
        &ASYMMETRIC_ALGS,
        &vec!["https://issuer.test".to_owned()],
        |_: &str| VerifyOutcome::Verified("aGVhZGVy.cGF5.c2ln".to_owned()),
    );
    assert!(
        matches!(rejected, Err(AssertionReject::NoUsableKey)),
        "an empty key set fails closed, and says why"
    );
}

#[test]
fn the_first_audience_that_decides_decides() {
    let audiences = vec!["https://a".to_owned(), "https://b".to_owned(), "https://c".to_owned()];
    let by = |decisive: &'static str| {
        verify_external_assertion(&[1_u8], &ASYMMETRIC_ALGS, &audiences, move |audience: &str| {
            if audience == decisive {
                VerifyOutcome::Verified(audience.to_owned())
            } else {
                VerifyOutcome::Refused(RejectReason::AudienceMismatch)
            }
        })
    };
    assert_eq!(by("https://b"), Ok("https://b".to_owned()));
    assert_eq!(
        by("https://elsewhere"),
        Err(AssertionReject::Jose(RejectReason::AudienceMismatch))
    );
    let expired = verify_external_assertion(&[1_u8], &ASYMMETRIC_ALGS, &audiences, |_: &str| {
        VerifyOutcome::<u8>::Refused(RejectReason::Other("expired".to_owned()))
    });
    assert_eq!(
        expired,
        Err(AssertionReject::Jose(RejectReason::Other("expired".to_owned())))
    );
    let none = verify_external_assertion(&[1_u8], &ASYMMETRIC_ALGS, &audiences, |_: &str| {
        VerifyOutcome::<u8>::NoPolicy
    });
    assert_eq!(none, Err(AssertionReject::NoUsableKey));
}

#[test]
fn users_of_another_scope_are_told_from_users_and_from_workloads() {
    assert_eq!(MappedPrincipal::classify(true, true), MappedPrincipal::User);
    assert_eq!(MappedPrincipal::classify(false, true), MappedPrincipal::ForeignUser);
    assert_eq!(MappedPrincipal::classify(false, false), MappedPrincipal::Workload);
}

#[test]
fn an_audience_allowlist_narrows_and_never_widens() {
    let shared = vec!["https://a".to_owned(), "https://b".to_owned()];
    let mut record = issuer();
    assert_eq!(narrowed_audiences(&shared, &record), shared);
    record.audience_allow = Some("https://b  https://c".to_owned());
    assert_eq!(narrowed_audiences(&shared, &record), vec!["https://b".to_owned()]);
    record.audience_allow = Some("https://c".to_owned());
    assert!(narrowed_audiences(&shared, &record).is_empty());
}

#[test]
fn keys_are_pinned_published_or_nowhere() {
    let mut record = issuer();
    assert_eq!(resolve_issuer_keys(&record, false, Some("k")), KeySource::Inline("{}".to_owned()));
    record.jwks = None;
    record.jwks_uri = Some("https://issuer.test/jwks".to_owned());
    assert_eq!(
        resolve_issuer_keys(&record, true, Some("k")),
        KeySource::Fetch {
            uri: "https://issuer.test/jwks".to_owned(),
            kid: Some("k".to_owned()),
        }
    );
    assert_eq!(resolve_issuer_keys(&record, false, None), KeySource::Nowhere);
}

fn value(text: &str) -> Value {
    serde_json::from_str(text).expect("json")
}

fn mapping(kind: MappedPrincipal) -> SubjectMapping {
    SubjectMapping {
        principal: "usr_1".to_owned(),
        kind,
        match_claim: None,
        match_value: None,
    }
}

#[test]
fn a_claim_gate_compares_exactly() {
    let mut rule = mapping(MappedPrincipal::Workload);
    let claims = value(r#"{"ref":"main","n":1,"empty":""}"#);
    assert!(passes_gate(&rule, &claims));
    rule.match_claim = Some("ref".to_owned());
    rule.match_value = Some("main".to_owned());
    assert!(passes_gate(&rule, &claims));
    rule.match_value = Some("main ".to_owned());
    assert!(!passes_gate(&rule, &claims));
    rule.match_value = None;
    assert!(!passes_gate(&rule, &claims));
    rule.match_claim = Some("empty".to_owned());
    assert!(passes_gate(&rule, &claims));
    rule.match_claim = Some("n".to_owned());
    rule.match_value = Some("1".to_owned());
    assert!(!passes_gate(&rule, &claims), "a number is no string");
}

#[test]
fn a_used_assertion_is_remembered_a_second_too_long() {
    let claims = value(r#"{"jti":" j-1 "}"#);
    assert_eq!(
        spend_optional_jti(&claims, 100, 60),
        Some(("j-1".to_owned(), 161_000_000))
    );
    assert_eq!(spend_optional_jti(&value(r#"{"jti":"  "}"#), 100, 60), None);
    assert_eq!(spend_optional_jti(&value("{}"), 100, 60), None);
    assert_eq!(
        spend_optional_jti(&claims, i64::MAX, u64::MAX),
        Some(("j-1".to_owned(), i64::MAX))
    );
}

fn assertion() -> String {
    let payload = URL_SAFE_NO_PAD.encode(br#"{"iss":"https://issuer.test"}"#);
    format!("h.{payload}.s")
}

fn validation() -> Validation {
    Validation {
        assertion: assertion(),
        kid: Some("k-1".to_owned()),
        shared_audiences: vec!["https://op.test".to_owned()],
        skew_secs: 60,
        resolver: false,
        issuer: None,
        verified: None,
        spent: None,
        mapping: None,
        lifecycle: None,
    }
}

fn verified() -> VerifiedAssertion {
    VerifiedAssertion {
        subject: Some("repo:x".to_owned()),
        expiration: Some(1_000),
        claims: value(r#"{"jti":"j-1"}"#),
    }
}

fn rejects(v: &Validation, reason: DiagnosticReason) {
    assert_eq!(
        validate_and_map(v),
        ValidationStep::Failed(JwtBearerError::Reject(reason))
    );
}

fn faults(v: &Validation) {
    assert_eq!(validate_and_map(v), ValidationStep::Failed(JwtBearerError::Server));
}

#[test]
fn an_assertion_goes_from_its_issuer_to_a_principal() {
    let mut v = validation();
    assert_eq!(
        validate_and_map(&v),
        ValidationStep::FindIssuer("https://issuer.test".to_owned())
    );
    v.issuer = Some(Ok(Some(ExternalAssertionIssuer {
        signing_alg_allow: Some("EdDSA".to_owned()),
        ..issuer()
    })));
    assert_eq!(
        validate_and_map(&v),
        ValidationStep::Verify {
            issuer: "https://issuer.test".to_owned(),
            keys: KeySource::Inline("{}".to_owned()),
            algorithms: vec![JwsAlgorithm::EdDsa],
            audiences: vec!["https://op.test".to_owned()],
            skew_secs: 60,
        }
    );
    v.verified = Some(Ok(verified()));
    assert_eq!(
        validate_and_map(&v),
        ValidationStep::SpendJti {
            issuer: "https://issuer.test".to_owned(),
            jti: "j-1".to_owned(),
            expires_micros: 1_061_000_000,
        }
    );
    v.spent = Some(Ok(JtiOutcome::Recorded));
    assert_eq!(
        validate_and_map(&v),
        ValidationStep::FindMapping {
            issuer: "https://issuer.test".to_owned(),
            subject: "repo:x".to_owned(),
        }
    );
    v.mapping = Some(Ok(Some(mapping(MappedPrincipal::User))));
    assert_eq!(
        validate_and_map(&v),
        ValidationStep::ReadLifecycle("usr_1".to_owned())
    );
    v.lifecycle = Some(Ok(true));
    assert_eq!(
        validate_and_map(&v),
        ValidationStep::Mapped(MappedFederation {
            principal: "usr_1".to_owned(),
            issuer: "https://issuer.test".to_owned(),
            subject: "repo:x".to_owned(),
        })
    );
}

#[test]
fn every_refusal_of_an_assertion_has_its_reason() {
    let mut v = validation();
    v.assertion = "not-a-jws".to_owned();
    rejects(&v, DiagnosticReason::AssertionIssuerUntrusted);

    let mut v = validation();
    v.issuer = Some(Ok(None));
    rejects(&v, DiagnosticReason::AssertionIssuerUntrusted);
    v.issuer = Some(Ok(Some(ExternalAssertionIssuer { enabled: false, ..issuer() })));
    rejects(&v, DiagnosticReason::AssertionIssuerUntrusted);
    v.issuer = Some(Err(()));
    faults(&v);

    v.issuer = Some(Ok(Some(issuer())));
    v.verified = Some(Err(AssertionReject::Jose(RejectReason::Other("bad".to_owned()))));
    rejects(
        &v,
        DiagnosticReason::AssertionUnverified(AssertionReject::Jose(RejectReason::Other(
            "bad".to_owned(),
        ))),
    );
    v.verified = Some(Ok(VerifiedAssertion { subject: Some(" ".to_owned()), ..verified() }));
    rejects(&v, DiagnosticReason::AssertionInvalid);
    v.verified = Some(Ok(VerifiedAssertion { expiration: None, ..verified() }));
    rejects(&v, DiagnosticReason::AssertionInvalid);

    v.verified = Some(Ok(verified()));
    v.spent = Some(Ok(JtiOutcome::Replayed));
    rejects(&v, DiagnosticReason::ReplayedJti);
    v.spent = Some(Err(()));
    faults(&v);

    v.spent = Some(Ok(JtiOutcome::Recorded));
    v.mapping = Some(Ok(None));
    rejects(&v, DiagnosticReason::AssertionSubjectUnmapped);
    v.mapping = Some(Err(()));
    faults(&v);
    v.mapping = Some(Ok(Some(mapping(MappedPrincipal::ForeignUser))));
    rejects(&v, DiagnosticReason::PrincipalNotAuthenticatable);
    v.mapping = Some(Ok(Some(mapping(MappedPrincipal::User))));
    v.lifecycle = Some(Ok(false));
    rejects(&v, DiagnosticReason::PrincipalNotAuthenticatable);
    v.lifecycle = Some(Err(()));
    faults(&v);
}

#[test]
fn a_subject_is_compared_as_it_was_signed() {
    let mut v = validation();
    v.issuer = Some(Ok(Some(issuer())));
    v.verified = Some(Ok(VerifiedAssertion {
        subject: Some("repo:x\u{00A0}".to_owned()),
        expiration: Some(1),
        claims: value("{}"),
    }));
    assert_eq!(
        validate_and_map(&v),
        ValidationStep::FindMapping {
            issuer: "https://issuer.test".to_owned(),
            subject: "repo:x\u{00A0}".to_owned(),
        }
    );
}

#[test]
fn the_basic_scheme_is_told_in_any_case() {
    assert!(is_basic_scheme(Some("Basic abc")));
    assert!(is_basic_scheme(Some("  bAsIc abc")));
    assert!(!is_basic_scheme(Some("Basic")));
    assert!(!is_basic_scheme(Some("Bearer abc")));
    assert!(!is_basic_scheme(Some("B\u{00E4}sic x")));
    assert!(!is_basic_scheme(None));
}

fn request() -> GrantRequest {
    GrantRequest {
        assertion: Some(" a.b.c ".to_owned()),
        authorization: Some("Basic x".to_owned()),
        requested_scope: Some("api".to_owned()),
        presented: None,
        authenticated: None,
        registered: None,
        scope: None,
        mapped: None,
    }
}

#[test]
fn a_grant_settles_the_client_and_the_scope_before_the_assertion() {
    let mut q = request();
    q.assertion = Some("  ".to_owned());
    assert_eq!(
        jwt_bearer_grant(&q),
        GrantStep::Refuse(TokenError::InvalidRequest("assertion is required".to_owned()))
    );
    let mut q = request();
    assert_eq!(jwt_bearer_grant(&q), GrantStep::ParseClient);
    q.presented = Some(Err(()));
    assert_eq!(
        jwt_bearer_grant(&q),
        GrantStep::Refuse(TokenError::InvalidClient { via_basic: true })
    );
    q.presented = Some(Ok(PresentedClient { via_basic: false, scoped: false }));
    assert_eq!(
        jwt_bearer_grant(&q),
        GrantStep::Refuse(TokenError::InvalidClient { via_basic: false })
    );
    q.presented = Some(Ok(PresentedClient { via_basic: true, scoped: true }));
    assert_eq!(jwt_bearer_grant(&q), GrantStep::Authenticate);
    q.authenticated = Some(Err(ClientAuthError::InvalidClient { via_basic: true }));
    assert_eq!(
        jwt_bearer_grant(&q),
        GrantStep::Refuse(TokenError::InvalidClient { via_basic: true })
    );
    q.authenticated = Some(Err(ClientAuthError::InvalidRequest("two ways".to_owned())));
    assert_eq!(
        jwt_bearer_grant(&q),
        GrantStep::Refuse(TokenError::InvalidRequest("two ways".to_owned()))
    );
    q.authenticated = Some(Ok("cli_1".to_owned()));
    assert_eq!(jwt_bearer_grant(&q), GrantStep::CheckRegistration("cli_1".to_owned()));
    q.registered = Some(false);
    assert_eq!(jwt_bearer_grant(&q), GrantStep::Refuse(TokenError::UnauthorizedClient));
    q.registered = Some(true);
    assert_eq!(jwt_bearer_grant(&q), GrantStep::ResolveScope {
        client_id: "cli_1".to_owned(),
        requested: Some("api".to_owned()),
    });
    q.scope = Some(MachineScope::Floor);
    assert_eq!(jwt_bearer_grant(&q), GrantStep::Refuse(TokenError::InvalidScope));
    q.scope = Some(MachineScope::NoClient);
    assert_eq!(
        jwt_bearer_grant(&q),
        GrantStep::Refuse(TokenError::InvalidClient { via_basic: true })
    );
    q.scope = Some(MachineScope::Fault);
    assert_eq!(jwt_bearer_grant(&q), GrantStep::Refuse(TokenError::ServerError));
    q.scope = Some(MachineScope::Allowlist);
    assert_eq!(
        jwt_bearer_grant(&q),
        GrantStep::RefuseRecorded {
            client_id: "cli_1".to_owned(),
            assertion: "a.b.c".to_owned(),
            reason: DiagnosticReason::ScopeNotAllowlisted,
        }
    );
    q.scope = Some(MachineScope::Granted(Some("api".to_owned())));
    assert_eq!(jwt_bearer_grant(&q), GrantStep::Validate("a.b.c".to_owned()));
    q.mapped = Some(Err(JwtBearerError::Server));
    assert_eq!(jwt_bearer_grant(&q), GrantStep::Refuse(TokenError::ServerError));
    q.mapped = Some(Err(JwtBearerError::Reject(DiagnosticReason::ReplayedJti)));
    assert_eq!(
        jwt_bearer_grant(&q),
        GrantStep::RefuseRecorded {
            client_id: "cli_1".to_owned(),
            assertion: "a.b.c".to_owned(),
            reason: DiagnosticReason::ReplayedJti,
        }
    );
    let mapped = || MappedFederation {
        principal: "usr_1".to_owned(),
        issuer: "https://issuer.test".to_owned(),
        subject: "repo:x".to_owned(),
    };
    q.mapped = Some(Ok(mapped()));
    assert_eq!(
        jwt_bearer_grant(&q),
        GrantStep::Mint {
            client_id: "cli_1".to_owned(),
            scope: Some("api".to_owned()),
            mapped: mapped(),
        }
    );
}

#[test]
fn a_diagnostic_is_recorded_unless_that_is_off() {
    let record = |off: bool| {
        record_diagnostic(
            off,
            "cli_1".to_owned(),
            DiagnosticReason::ReplayedJti,
            Some("ES256".to_owned()),
            None,
        )
    };
    assert_eq!(record(true), None);
    let recorded = record(false).expect("recorded");
    assert_eq!(recorded.auth_method, "jwt-bearer");
    assert_eq!(recorded.signing_alg.as_deref(), Some("ES256"));
    assert_eq!(recorded.reason, DiagnosticReason::ReplayedJti);
}

fn opaque() -> MintedAccessToken {
    MintedAccessToken::Opaque {
        token: "ira_at_x".to_owned(),
        digest: "d".to_owned(),
        jti: "j".to_owned(),
        audiences: vec!["cli_1".to_owned(), "https://api".to_owned()],
        expires_at_unix_micros: 5,
    }
}

#[test]
fn the_response_has_a_scope_only_where_one_was_granted() {
    let minted = MintedAccessToken::Jwt { token: "t".to_owned(), jti: "j".to_owned() };
    let body = value(&jwt_bearer_response(&minted, 300, None));
    assert_eq!(body["access_token"], "t");
    assert_eq!(body["token_type"], "Bearer");
    assert_eq!(body["expires_in"], 300);
    assert!(body.get("scope").is_none());
    assert!(body.get("refresh_token").is_none());
    assert!(body.get("id_token").is_none());
    let body = value(&jwt_bearer_response(&minted, 300, Some("api")));
    assert_eq!(body["scope"], "api");
}

#[test]
fn a_record_of_an_opaque_token_holds_what_is_said_of_it_later() {
    assert_eq!(
        access_record(&opaque(), "usr_1", "cli_1", Some("api")),
        AccessRecord::Opaque {
            token_digest: "d".to_owned(),
            subject: "usr_1".to_owned(),
            client_id: "cli_1".to_owned(),
            audience: "cli_1".to_owned(),
            audiences: vec!["cli_1".to_owned(), "https://api".to_owned()],
            scope: Some("api".to_owned()),
            jti: "j".to_owned(),
            expires_at_unix_micros: 5,
        }
    );
    let minted = MintedAccessToken::Jwt { token: "t".to_owned(), jti: "j".to_owned() };
    assert_eq!(
        access_record(&minted, "usr_1", "cli_1", None),
        AccessRecord::Jwt { jti: "j".to_owned() }
    );
}

#[test]
fn a_token_goes_out_once_its_grant_is_stored() {
    let mapped = MappedFederation {
        principal: "usr_1".to_owned(),
        issuer: "https://issuer.test".to_owned(),
        subject: "repo:x".to_owned(),
    };
    let mut m = Minting {
        now: 7_000,
        target: None,
        issuer: None,
        signer: false,
        claims: None,
        minted: None,
        client: true,
        stored: None,
    };
    let step = |m: &Minting| mint_and_persist(m, &mapped, "cli_1", Some("api"));
    let fault = || MintStep::Refuse(TokenError::ServerError);
    assert_eq!(step(&m), MintStep::ResolveTarget { client_id: "cli_1".to_owned() });
    m.target = Some(Err(()));
    assert_eq!(step(&m), fault());
    m.target = Some(Ok(()));
    assert_eq!(step(&m), MintStep::LoadIssuer);
    m.issuer = Some(Err(TokenError::InvalidGrant));
    assert_eq!(step(&m), MintStep::Refuse(TokenError::InvalidGrant));
    m.issuer = Some(Ok(()));
    assert_eq!(step(&m), fault());
    m.signer = true;
    assert_eq!(
        step(&m),
        MintStep::MapClaims {
            client_id: "cli_1".to_owned(),
            grant_type: "urn:ietf:params:oauth:grant-type:jwt-bearer",
            subject: "usr_1".to_owned(),
        }
    );
    m.claims = Some(Err(()));
    assert_eq!(step(&m), fault());
    m.claims = Some(Ok(()));
    assert_eq!(
        step(&m),
        MintStep::Mint {
            subject: "usr_1".to_owned(),
            client_id: "cli_1".to_owned(),
            scope: Some("api".to_owned()),
        }
    );
    m.minted = Some(Err(()));
    assert_eq!(step(&m), fault());
    m.minted = Some(Ok((opaque(), 300)));
    assert_eq!(
        step(&m),
        MintStep::Store {
            subject: "usr_1".to_owned(),
            client_id: "cli_1".to_owned(),
            created_at_unix_micros: 7,
            record: access_record(&opaque(), "usr_1", "cli_1", Some("api")),
            issuer: "https://issuer.test".to_owned(),
            federated_subject: "repo:x".to_owned(),
        }
    );
    m.client = false;
    assert_eq!(step(&m), fault());
    m.client = true;
    m.stored = Some(Err(TokenError::ServerError));
    assert_eq!(step(&m), fault());
    m.stored = Some(Ok(()));
    match step(&m) {
        MintStep::Respond(body) => assert_eq!(value(&body)["access_token"], "ira_at_x"),
        other => panic!("expected a response, got {other:?}"),
    }
}
