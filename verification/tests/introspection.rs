use base64::engine::general_purpose::URL_SAFE_NO_PAD;
use base64::Engine;
use ironauth_oidc::global_revocation::Authenticated;
use ironauth_oidc::introspection::{
    answered, default_serializer, introspect, introspection_reply, peek_audiences, resolve, resolve_jwt,
    resolve_opaque, resolve_refresh, verify_any_audience, AudienceStep, IntrospectParams,
    IntrospectStep, IntrospectionClaims, IntrospectionSerializer, JsonIntrospectionSerializer,
    OpaqueGrant, RefreshGrant, ResolveStep, Resolving, VerifiedClaims,
};
use serde_json::Value;

#[test]
fn inactive_response_carries_only_active_false() {
    let body = JsonIntrospectionSerializer.serialize(&IntrospectionClaims::inactive());
    assert_eq!(body.content_type, "application/json");
    assert_eq!(body.body, r#"{"active":false}"#);
}

#[test]
fn active_response_omits_absent_fields_and_keeps_present_ones() {
    let claims = IntrospectionClaims {
        active: true,
        scope: Some("openid profile".to_owned()),
        client_id: Some("cli_x".to_owned()),
        sub: Some("usr_abc".to_owned()),
        token_type: Some("Bearer".to_owned()),
        exp: Some(1_300),
        iat: Some(1_000),
        aud: vec!["cli_x".to_owned()],
    };
    let value: Value =
        serde_json::from_str(&JsonIntrospectionSerializer.serialize(&claims).body).unwrap();
    assert_eq!(value["active"], Value::Bool(true));
    assert_eq!(value["scope"], "openid profile");
    assert_eq!(value["client_id"], "cli_x");
    assert_eq!(value["sub"], "usr_abc");
    assert_eq!(value["token_type"], "Bearer");
    assert_eq!(value["exp"], 1_300);
    assert_eq!(value["iat"], 1_000);
    assert_eq!(value["aud"], "cli_x");

    let refresh = IntrospectionClaims {
        active: true,
        scope: None,
        client_id: Some("cli_x".to_owned()),
        sub: Some("usr_abc".to_owned()),
        token_type: None,
        exp: Some(9),
        iat: Some(1),
        aud: Vec::new(),
    };
    let value: Value =
        serde_json::from_str(&JsonIntrospectionSerializer.serialize(&refresh).body).unwrap();
    assert!(value.get("aud").is_none(), "aud omitted, not null");
    assert!(value.get("token_type").is_none(), "token_type omitted");
    assert!(value.get("scope").is_none(), "absent scope omitted");
}

#[test]
fn several_audiences_are_an_array() {
    let claims = IntrospectionClaims {
        active: true,
        aud: vec!["a".to_owned(), "b".to_owned()],
        ..IntrospectionClaims::inactive()
    };
    let value: Value =
        serde_json::from_str(&default_serializer().serialize(&claims).body).unwrap();
    assert_eq!(value["aud"][1], "b");
}

#[test]
fn only_a_confidential_client_asks_and_it_names_a_token() {
    let params = |token: Option<&str>| IntrospectParams {
        token: token.map(str::to_owned),
        token_type_hint: Some("refresh_token".to_owned()),
        client_id: None,
        client_secret: None,
        client_assertion: None,
        client_assertion_type: None,
    };
    assert_eq!(
        introspect(Authenticated::Public, &params(Some("t"))),
        IntrospectStep::Unauthorized
    );
    assert_eq!(
        introspect(Authenticated::No, &params(Some("t"))),
        IntrospectStep::Unauthorized
    );
    assert_eq!(
        introspect(Authenticated::Confidential, &params(Some("  "))),
        IntrospectStep::TokenRequired
    );
    assert_eq!(
        introspect(Authenticated::Confidential, &params(Some(" t "))),
        IntrospectStep::Resolve("t".to_owned())
    );
}

#[test]
fn a_refresh_token_is_live_while_everything_of_it_is() {
    let grant = || RefreshGrant {
        active: true,
        rotated: false,
        idle_expires_at_unix_micros: 2_500_000,
        family_absolute_expires_at_unix_micros: 9_000_000,
        issued_at_unix_micros: 1_000_000,
        scope: Some("openid".to_owned()),
        client_id: "cli_1".to_owned(),
    };
    let live = resolve_refresh(Some(grant()), 1_000_000, "sub").expect("live");
    assert_eq!(live.exp, Some(2));
    assert_eq!(live.iat, Some(1));
    assert_eq!(live.sub.as_deref(), Some("sub"));
    assert!(live.token_type.is_none() && live.aud.is_empty());
    for dead in [
        RefreshGrant { active: false, ..grant() },
        RefreshGrant { rotated: true, ..grant() },
        RefreshGrant { idle_expires_at_unix_micros: 1_000_000, ..grant() },
        RefreshGrant { family_absolute_expires_at_unix_micros: 1_000_000, ..grant() },
    ] {
        let answer = answered(resolve_refresh(Some(dead), 1_000_000, "sub"));
        assert_eq!(answer, IntrospectionClaims::inactive());
    }
    assert!(resolve_refresh(None, 0, "sub").is_none());
}

#[test]
fn an_access_token_is_reported_with_its_audiences() {
    let opaque = resolve_opaque(
        Some(OpaqueGrant {
            scope: None,
            client_id: "cli_1".to_owned(),
            expires_at_unix_micros: -1,
            issued_at_unix_micros: 0,
            audiences: vec!["a".to_owned()],
        }),
        "sub",
    )
    .expect("live");
    assert_eq!(opaque.exp, Some(-1));
    assert_eq!(opaque.token_type.as_deref(), Some("Bearer"));
    assert_eq!(opaque.aud, vec!["a".to_owned()]);
    let verified = || VerifiedClaims {
        scope: None,
        client_id: Some("cli_1".to_owned()),
        sub: None,
        exp: Some(1),
        iat: None,
        aud: vec!["a".to_owned(), "b".to_owned()],
    };
    assert_eq!(resolve_jwt(true, Some(verified())).expect("live").aud.len(), 2);
    assert!(resolve_jwt(false, Some(verified())).is_none());
    assert!(resolve_jwt(true, None).is_none());
}

#[test]
fn audiences_are_tried_one_after_the_other() {
    let audiences = vec!["a".to_owned(), "b".to_owned()];
    assert!(matches!(
        verify_any_audience::<u8>(&audiences, 1, None),
        AudienceStep::Try(a) if a == "b"
    ));
    assert!(matches!(verify_any_audience(&audiences, 1, Some(7_u8)), AudienceStep::Verified(7)));
    assert!(matches!(
        verify_any_audience::<u8>(&audiences, 2, None),
        AudienceStep::Exhausted
    ));
    let token = |claims: &str| format!("h.{}.s", URL_SAFE_NO_PAD.encode(claims));
    assert_eq!(
        peek_audiences(&token(r#"{"aud":["a",1,"b"]}"#)),
        Some(vec!["a".to_owned(), "b".to_owned()])
    );
    assert_eq!(peek_audiences(&token(r#"{"aud":"a"}"#)), Some(vec!["a".to_owned()]));
    assert_eq!(peek_audiences(&token(r#"{"aud":[1]}"#)), None);
    assert_eq!(peek_audiences("x"), None);
}

#[test]
fn a_response_is_not_stored() {
    let reply = introspection_reply(
        JsonIntrospectionSerializer.serialize(&IntrospectionClaims::default()),
    );
    assert_eq!(reply.status, 200);
    assert_eq!(
        reply.headers,
        vec![
            ("content-type".to_owned(), "application/json".to_owned()),
            ("cache-control".to_owned(), "no-store".to_owned()),
            ("pragma".to_owned(), "no-cache".to_owned()),
        ]
    );
    assert_eq!(reply.body, r#"{"active":false}"#);
}

#[test]
fn a_token_is_resolved_by_its_kind() {
    let nothing = || Resolving {
        issued: None,
        opaque: None,
        refresh: None,
        tried: 0,
        verified: None,
        now_micros: 0,
        public_subject: "sub".to_owned(),
    };
    let inactive = |step: ResolveStep| match step {
        ResolveStep::Answer(claims) => claims == IntrospectionClaims::inactive(),
        _ => false,
    };
    assert!(matches!(resolve("ira_rt_x", nothing()), ResolveStep::LookUpRefresh));
    assert!(matches!(resolve("ira_at_x", nothing()), ResolveStep::LookUpOpaque));
    assert!(inactive(resolve("ira_rt_x", Resolving { refresh: Some(None), ..nothing() })));
    assert!(inactive(resolve("ira_at_x", Resolving { opaque: Some(None), ..nothing() })));
    assert!(inactive(resolve("nonsense", nothing())));
    let token = format!(
        "h.{}.s",
        URL_SAFE_NO_PAD.encode(r#"{"jti":"tok_1","aud":["a","b"]}"#)
    );
    assert!(matches!(
        resolve(&token, nothing()),
        ResolveStep::LookUpIssued { jti } if jti == "tok_1"
    ));
    assert!(inactive(resolve(&token, Resolving { issued: Some(None), ..nothing() })));
    let live = || Resolving { issued: Some(Some(true)), ..nothing() };
    assert!(matches!(
        resolve(&token, Resolving { tried: 1, ..live() }),
        ResolveStep::Verify { audience } if audience == "b"
    ));
    assert!(inactive(resolve(&token, Resolving { tried: 2, ..live() })));
    let verified = || {
        Some(VerifiedClaims {
            scope: None,
            client_id: None,
            sub: Some("s".to_owned()),
            exp: Some(1),
            iat: None,
            aud: vec!["a".to_owned(), "b".to_owned()],
        })
    };
    match resolve(&token, Resolving { tried: 1, verified: verified(), ..live() }) {
        ResolveStep::Answer(claims) => assert!(claims.active && claims.aud.len() == 2),
        _ => panic!("verified"),
    }
    assert!(inactive(resolve(
        &token,
        Resolving { issued: Some(Some(false)), verified: verified(), ..nothing() }
    )));
}
