use ironauth_oidc::authn::{
    achieved_acr, methods_token, parse_methods, AuthMethod, AuthenticationEvent,
};
use ironauth_oidc::clock;
use ironauth_oidc::funnel::{
    result_label, OtpChannel, OtpStage, PasskeyStage, OTP_FUNNEL_TOTAL, PASSKEY_FUNNEL_TOTAL,
};
use ironauth_oidc::headers::Headers;
use ironauth_oidc::reply::{as_sent, is_sendable, Reply};
use ironauth_oidc::scope_map::{KeyMap, Scope};
use ironauth_oidc::step_up::{
    acr_meets, canonical_step_up_acr, default_acr_order, is_known_step_up_acr,
};
use ironauth_oidc::text;
use ironauth_oidc::token_credential::{classify, PresentedTokenKind};
use ironauth_oidc::util;

#[test]
fn moments_and_microseconds() {
    assert_eq!(clock::epoch_micros(1_500), 1);
    assert_eq!(clock::epoch_micros(-1), i64::MAX);
    assert_eq!(clock::epoch_micros(i128::MAX), i64::MAX);
    assert_eq!(clock::system_time_from_micros(7), 7_000);
    assert_eq!(clock::secs_of_micros(-1), -1);
    assert_eq!(clock::secs_of_micros(1_999_999), 1);
    assert_eq!(clock::micros_of_secs(i64::MAX), i64::MAX);
    assert_eq!(clock::micros_of_secs(i64::MIN), i64::MIN);
    assert_eq!(clock::saturating_sum(i64::MIN, -1), i64::MIN);
    assert_eq!(clock::moment_after(0, 2), 2_000_000_000);
}

#[test]
fn only_what_can_be_sent_goes_out() {
    for (value, sendable) in [("", true), ("a b\t\u{e9}", true), ("a\n", false), ("\u{7f}", false)] {
        assert_eq!(is_sendable(value), sendable, "{value:?}");
    }
    let pair = |name: &str, value: &str| (name.to_owned(), value.to_owned());
    let reply = Reply {
        status: 200,
        headers: vec![pair("a", "1"), pair("b", "2\n"), pair("c", "3")],
        body: "x".to_owned(),
    };
    assert_eq!(
        as_sent(reply),
        Reply {
            status: 200,
            headers: vec![pair("a", "1"), pair("c", "3")],
            body: "x".to_owned(),
        }
    );
}

#[test]
fn funnels_are_labelled() {
    assert_eq!(result_label(204), "ok");
    assert_eq!(result_label(302), "error");
    assert_eq!(result_label(500), "error");
    assert_eq!(PasskeyStage::RegisterChallenge.as_str(), "register_challenge");
    assert_eq!(OtpChannel::Sms.as_str(), "sms");
    assert_eq!(OtpStage::Verify.as_str(), "verify");
    assert!(PASSKEY_FUNNEL_TOTAL != OTP_FUNNEL_TOTAL);
}

#[test]
fn headers_are_a_map_of_texts() {
    let mut headers = Headers::new();
    headers.insert("b".to_owned(), "1".to_owned());
    headers.insert("a".to_owned(), "2".to_owned());
    headers.insert("b".to_owned(), "3".to_owned());
    assert_eq!(headers.keys(), vec!["a".to_owned(), "b".to_owned()]);
    assert_eq!(headers.get("b").map(String::as_str), Some("3"));
    headers.remove("b");
    assert!(!headers.contains_key("b") && headers.contains_key("a"));
}

#[test]
fn a_scope_is_a_key() {
    let mut map: KeyMap<Scope, u8> = KeyMap::new();
    map.insert(Scope::new("a", "b"), 1);
    map.insert(Scope::new("a", "c"), 2);
    map.insert(Scope::new("a", "b"), 3);
    assert_eq!(map.len(), 2);
    assert_eq!(map.get(&Scope::new("a", "b")), Some(&3));
    map.remove(&Scope::new("a", "b"));
    assert_eq!(map.get(&Scope::new("a", "b")), None);
    map.clear();
    assert_eq!(map.len(), 0);
}

#[test]
fn methods_achieve_a_class() {
    let methods = parse_methods("pwd nonsense totp");
    assert_eq!(methods, vec![AuthMethod::Password, AuthMethod::Totp]);
    assert_eq!(methods_token(&methods), "pwd totp");
    assert_eq!(achieved_acr(&methods), "urn:ironauth:acr:mfa");
    assert_eq!(achieved_acr(&parse_methods("")), "urn:ironauth:acr:pwd");
    assert_eq!(achieved_acr(&parse_methods("passkey pwd")), "phr");
}

#[test]
fn a_sign_in_is_written_down_by_its_methods() {
    assert_eq!(AuthenticationEvent::password(3).methods_token(), "pwd");
    let email = AuthenticationEvent::email_otp(4);
    assert_eq!(email.methods_token(), "email_otp");
    assert_eq!(email.auth_time_unix_micros, 4);
    assert_eq!(parse_methods(&email.methods_token()), vec![AuthMethod::EmailOtp]);
    let both = AuthenticationEvent::from_methods(vec![AuthMethod::Password, AuthMethod::Totp], 5);
    assert_eq!(both.methods_token(), "pwd totp");
}

#[test]
fn classes_are_ranked_by_their_order() {
    let order = default_acr_order();
    assert_eq!(canonical_step_up_acr("mfa"), "urn:ironauth:acr:mfa");
    assert!(is_known_step_up_acr("mfa") && !is_known_step_up_acr("strong"));
    assert!(acr_meets(&order, Some("phr"), "urn:ironauth:acr:mfa"));
    assert!(!acr_meets(&order, Some("urn:ironauth:acr:pwd"), "urn:ironauth:acr:mfa"));
    assert!(!acr_meets(&order, None, "urn:ironauth:acr:pwd"));
}

#[test]
fn queries_are_written_and_read_back() {
    assert_eq!(util::percent_encode_query("a b/\u{00E9}~"), "a%20b%2F%C3%A9~");
    assert_eq!(util::append_query("/x", "n", Some("1&2")), "/x?n=1%262");
    assert_eq!(util::append_query("/x?y=1", "n", Some("2")), "/x?y=1&n=2");
    assert_eq!(util::append_query("/x", "n", None), "/x");
    assert_eq!(util::query_get("a=1&n=x%20y&n=z", "n").as_deref(), Some("x y"));
    assert_eq!(util::query_get("a=1", "n"), None);
    assert_eq!(util::query_get("n=%ff", "n"), None);
}

#[test]
fn texts_are_cut_and_joined() {
    assert_eq!(text::trimmed(" \u{00A0}a b\t"), "a b");
    assert_eq!(text::to_lower("AbC\u{00C4}"), "abc\u{00C4}");
    assert_eq!(text::words_of(" a  b\nc "), vec!["a".to_owned(), "b".to_owned(), "c".to_owned()]);
    assert_eq!(text::split_on("a..b", '.'), vec!["a".to_owned(), String::new(), "b".to_owned()]);
    assert_eq!(text::sides("k=v=w", '='), ("k".to_owned(), "v=w".to_owned()));
    assert_eq!(text::decimal_of(1_048_576), "1048576");
    assert_eq!(text::text_of_bytes(vec![0xc3, 0x28]), None);
    assert_eq!(text::text_of_bytes(vec![0xc3, 0xa9]).as_deref(), Some("\u{00E9}"));
}

#[test]
fn a_token_is_told_by_what_it_begins_with() {
    assert_eq!(classify("ira_rt_x"), PresentedTokenKind::Refresh);
    assert_eq!(classify("ira_at_x"), PresentedTokenKind::OpaqueAccess);
    assert_eq!(classify("eyJ.x.y"), PresentedTokenKind::JwtAccess);
}
