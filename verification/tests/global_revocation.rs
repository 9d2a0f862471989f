use ironauth_oidc::global_revocation::{
    global_token_revocation, no_content, terminal_signals, unauthorized, Authenticated,
    RevocationRequest, RevocationStep, SessionSignalCause, SubjectIdentifier, MALFORMED_BODY,
    UNRESOLVED_IDENTIFIER, UNSUPPORTED_IDENTIFIER,
};
use serde_json::Value;

struct Request {
    sub_id: SubjectIdentifier,
}

fn read(body: &str) -> Option<Request> {
    let value: Value = serde_json::from_str(body).ok()?;
    let sub_id = value.get("sub_id")?;
    let text = |name: &str| sub_id.get(name).and_then(Value::as_str).map(str::to_owned);
    Some(Request {
        sub_id: SubjectIdentifier {
            format: text("format")?,
            id: text("id"),
        },
    })
}

#[test]
fn opaque_subject_identifier_maps_to_the_local_subject() {
    let request = read(r#"{"sub_id":{"format":"opaque","id":"usr_abc123"}}"#)
            .expect("the draft opaque request shape parses");
    assert_eq!(request.sub_id.local_subject().as_deref(), Some("usr_abc123"));
}

#[test]
fn extra_members_are_ignored_not_rejected() {
    let request = read(
        r#"{"sub_id":{"format":"opaque","id":"usr_x","extra":"ignored"},"reason":"takeover"}"#,
    )
    .expect("extra members do not break parsing");
    assert_eq!(request.sub_id.local_subject().as_deref(), Some("usr_x"));
}

#[test]
fn an_unmapped_format_yields_no_local_subject() {
    for body in [
        r#"{"sub_id":{"format":"email","email":"a@b.example"}}"#,
        r#"{"sub_id":{"format":"iss_sub","iss":"https://i.example","sub":"s"}}"#,
    ] {
        let request = read(body).expect("well-formed sub_id parses");
        assert!(
            request.sub_id.local_subject().is_none(),
            "an unmapped format must not resolve a local subject: {body}"
        );
    }
}

#[test]
fn an_opaque_identifier_with_a_blank_id_resolves_nothing() {
    let request = read(r#"{"sub_id":{"format":"opaque","id":"   "}}"#).expect("parses");
    assert!(request.sub_id.local_subject().is_none());
}

#[test]
fn a_revocation_goes_from_the_client_to_what_is_revoked() {
    let request = |client: Authenticated, format: &str| RevocationRequest {
        client,
        sub_id: Some(SubjectIdentifier {
            format: format.to_owned(),
            id: Some(" usr_1 ".to_owned()),
        }),
        hard_kill: false,
        in_scope: None,
        stored: None,
    };
    let step = |request: RevocationRequest| global_token_revocation(&request);
    let known = || request(Authenticated::Confidential, "opaque");
    assert_eq!(step(request(Authenticated::No, "opaque")), RevocationStep::Unauthorized);
    assert_eq!(step(request(Authenticated::Public, "opaque")), RevocationStep::Unauthorized);
    assert_eq!(
        step(RevocationRequest { sub_id: None, ..known() }),
        RevocationStep::InvalidRequest(MALFORMED_BODY)
    );
    assert_eq!(
        step(request(Authenticated::Confidential, "email")),
        RevocationStep::InvalidRequest(UNSUPPORTED_IDENTIFIER)
    );
    assert_eq!(step(known()), RevocationStep::Resolve("usr_1".to_owned()));
    assert_eq!(
        step(RevocationRequest { in_scope: Some(false), ..known() }),
        RevocationStep::InvalidRequest(UNRESOLVED_IDENTIFIER)
    );
    let found = || RevocationRequest { in_scope: Some(true), ..known() };
    for hard_kill in [false, true] {
        assert_eq!(
            step(RevocationRequest { hard_kill, ..found() }),
            RevocationStep::Revoke { subject: "usr_1".to_owned(), hard_kill }
        );
    }
    assert_eq!(
        step(RevocationRequest { stored: Some(true), ..found() }),
        RevocationStep::NoContent
    );
    assert_eq!(
        step(RevocationRequest { stored: Some(false), ..found() }),
        RevocationStep::ServerError
    );
    assert_eq!(no_content().status, 204);
    assert_eq!(unauthorized().status, 401);
    assert_eq!(unauthorized().body, r#"{"error":"invalid_client"}"#);
}

#[test]
fn every_session_that_ended_is_signalled() {
    let signals = terminal_signals("tnt_1", "env_1", &vec!["a".to_owned(), "b".to_owned()]);
    assert_eq!(signals.len(), 2);
    assert_eq!(signals[1].session_id, "b");
    assert_eq!(signals[1].cause, SessionSignalCause::UserRevokedAll);
}
