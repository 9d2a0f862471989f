use ironauth_oidc::identity_chaining::{
    accept_assertion, assertion_grants, dedup, is_identity_assertion, IdentityAssertionRefusal,
    ID_JAG_TYP,
};
use serde_json::Value;

fn claims(text: &str) -> Value {
    serde_json::from_str(text).expect("json")
}

#[test]
fn an_identity_assertion_is_told_by_its_type() {
    let exactly = |typ: Option<&str>, wanted: &str| typ == Some(wanted);
    assert!(is_identity_assertion(Some(ID_JAG_TYP), exactly));
    assert!(!is_identity_assertion(Some("JWT"), exactly));
    assert!(!is_identity_assertion(None, exactly));
}

#[test]
fn an_assertion_grants_what_it_names_and_no_more() {
    let of = |scope: &str, requested: Option<&str>| {
        accept_assertion(
            true,
            &claims(scope),
            "cli_1",
            true,
            requested,
        )
    };
    let full = r#"{"client_id":"cli_1","scope":"a b a"}"#;
    assert_eq!(of(full, None), Ok(vec!["a".to_owned(), "b".to_owned()]));
    assert_eq!(of(full, Some("b")), Ok(vec!["b".to_owned()]));
    assert_eq!(
        of(full, Some("b c")),
        Err(IdentityAssertionRefusal::ScopeExceedsAssertion)
    );
    assert_eq!(
        of(r#"{"client_id":"cli_2","scope":"a"}"#, None),
        Err(IdentityAssertionRefusal::ClientMismatch)
    );
    assert_eq!(of(r#"{"scope":"a"}"#, None), Err(IdentityAssertionRefusal::Unbound));
    assert_eq!(
        of(r#"{"client_id":"cli_1"}"#, None),
        Err(IdentityAssertionRefusal::NoScope)
    );
}

#[test]
fn only_a_confidential_client_presents_an_assertion() {
    assert_eq!(
        assertion_grants(true, Some("cli_1"), Some("a"), "cli_1", false, None),
        Err(IdentityAssertionRefusal::PresenterNotConfidential)
    );
    assert_eq!(
        assertion_grants(false, Some("cli_1"), Some("a"), "cli_1", true, None),
        Err(IdentityAssertionRefusal::NotAnIdentityAssertion)
    );
}

#[test]
fn a_scope_is_granted_once() {
    let list: Vec<String> = ["b", "a", "b"].iter().map(|s| (*s).to_owned()).collect();
    assert_eq!(dedup(&list), vec!["b".to_owned(), "a".to_owned()]);
}
