//! What can be read off a presented token before it is verified.
//!
//! Nothing that is read here is believed. It says which kind of token was presented, and which
//! keys and which audience to verify it against.

use vstd::prelude::*;

use crate::json;
use crate::text;
use crate::util;

verus! {

/// What an opaque access token begins with.
pub const OPAQUE_ACCESS_TOKEN_PREFIX: &'static str = "ira_at_";

/// What a refresh token begins with.
pub const OPAQUE_REFRESH_TOKEN_PREFIX: &'static str = "ira_rt_";

/// The kind of a presented token.
#[derive(Debug, Clone, Copy, PartialEq, Eq, Structural)]
pub enum PresentedTokenKind {
    Refresh,
    OpaqueAccess,
    JwtAccess,
}

/// The kind of a presented token, by what it begins with.
pub open spec fn kind_of(token: Seq<char>) -> PresentedTokenKind {
    if OPAQUE_REFRESH_TOKEN_PREFIX@.is_prefix_of(token) {
        PresentedTokenKind::Refresh
    } else if OPAQUE_ACCESS_TOKEN_PREFIX@.is_prefix_of(token) {
        PresentedTokenKind::OpaqueAccess
    } else {
        PresentedTokenKind::JwtAccess
    }
}

/// The kind of a presented token.
pub fn classify(token: &str) -> (r: PresentedTokenKind)
    ensures
        r == kind_of(token@),
{
    if text::has_prefix(token, OPAQUE_REFRESH_TOKEN_PREFIX) {
        PresentedTokenKind::Refresh
    } else if text::has_prefix(token, OPAQUE_ACCESS_TOKEN_PREFIX) {
        PresentedTokenKind::OpaqueAccess
    } else {
        PresentedTokenKind::JwtAccess
    }
}

/// The bytes that a text stands for in the URL-safe alphabet without padding: what
/// `base64::engine::general_purpose::URL_SAFE_NO_PAD` decodes it to.
pub uninterp spec fn base64url_decoded(encoded: Seq<char>) -> Option<Seq<u8>>;

/// `base64::Engine::decode` of `URL_SAFE_NO_PAD`: the bytes that the text stands for, if it is an
/// encoding.
#[verifier::external_body]
fn decode_base64url(encoded: &str) -> (r: Option<Vec<u8>>)
    ensures
        match r {
            Some(bytes) => base64url_decoded(encoded@) == Some(bytes@),
            None => base64url_decoded(encoded@) is None,
        },
{
    base64::Engine::decode(&base64::engine::general_purpose::URL_SAFE_NO_PAD, encoded).ok()
}

/// Bytes in the URL-safe alphabet without padding: what
/// `base64::engine::general_purpose::URL_SAFE_NO_PAD` encodes them to.
pub uninterp spec fn base64url_encoded(bytes: Seq<u8>) -> Seq<char>;

/// `base64::Engine::encode` of `URL_SAFE_NO_PAD`: the bytes as text. It panics where the length of
/// the text does not fit in a machine word, which the bound leaves out.
#[verifier::external_body]
pub(crate) fn encode_base64url(bytes: &[u8]) -> (r: String)
    requires
        bytes@.len() <= 0x1000_0000,
    ensures
        r@ == base64url_encoded(bytes@),
{
    base64::Engine::encode(&base64::engine::general_purpose::URL_SAFE_NO_PAD, bytes)
}

/// The second of the segments of a token.
pub open spec fn payload_segment(token: Seq<char>) -> Option<Seq<char>> {
    let parts = text::split(token, '.');
    if parts.len() >= 2 {
        Some(parts[1])
    } else {
        None
    }
}

/// The claims of a token that was not verified.
pub open spec fn unverified_claims(token: Seq<char>) -> Option<serde_json::Value> {
    match payload_segment(token) {
        None => None,
        Some(segment) => match base64url_decoded(segment) {
            None => None,
            Some(bytes) => json::json_parsed(bytes),
        },
    }
}

/// The claims of a token, without verifying it.
pub fn peek_claims(token: &str) -> (r: Option<serde_json::Value>)
    ensures
        r == unverified_claims(token@),
{
    let parts: Vec<String> = text::split_on(token, '.');
    let ghost all = text::texts(parts@);
    assert(all.len() == parts@.len());
    if parts.len() < 2 {
        return None;
    }
    assert(all[1] == parts@[1]@);
    match decode_base64url(parts[1].as_str()) {
        Some(bytes) => json::parse(bytes.as_slice()),
        None => None,
    }
}

/// The claim `name` of a token that was not verified, where it is a string.
pub open spec fn unverified_text(token: Seq<char>, name: Seq<char>) -> Option<Seq<char>> {
    match unverified_claims(token) {
        Some(claims) => json::member_text(claims, name),
        None => None,
    }
}

/// The claim `name` of a token, without verifying it, where it is a string. It says which issuer
/// to verify the token against; the verification binds it.
pub fn peek_unverified_claim(token: &str, name: &str) -> (r: Option<String>)
    ensures
        text::opt_text(r) == unverified_text(token@, name@),
{
    match peek_claims(token) {
        Some(claims) => match json::text_member(&claims, name) {
            Some(s) => Some(s.to_owned()),
            None => None,
        },
        None => None,
    }
}

/// A token is told by what it begins with: a refresh token, an opaque access token, and any other
/// is one that carries its claims.
pub proof fn law_a_token_is_told_by_its_prefix(rest: Seq<char>, token: Seq<char>)
    ensures
        kind_of("ira_rt_"@ + rest) is Refresh,
        kind_of("ira_at_"@ + rest) is OpaqueAccess,
        kind_of(token) is Refresh ==> token.len() >= 7 && token.take(7) == "ira_rt_"@,
        kind_of(token) is OpaqueAccess ==> token.len() >= 7 && token.take(7) == "ira_at_"@,
{
    reveal_strlit("ira_rt_");
    reveal_strlit("ira_at_");
    let r = "ira_rt_"@ + rest;
    let a = "ira_at_"@ + rest;
    assert(r.subrange(0, 7) =~= "ira_rt_"@);
    assert(a.subrange(0, 7) =~= "ira_at_"@);
    assert("ira_rt_"@[4] == 'r' && "ira_at_"@[4] == 'a');
    assert(a.subrange(0, 7)[4] == 'a');
    assert("ira_rt_"@.len() == 7 && "ira_at_"@.len() == 7);
    if kind_of(token) is Refresh || kind_of(token) is OpaqueAccess {
        assert(token.take(7) =~= token.subrange(0, 7));
    }
}

/// The claims of a token are the JSON in the second of its segments, between the first dot and the
/// next one; a text without a dot has none.
pub proof fn law_the_claims_are_the_second_segment(head: Seq<char>, payload: Seq<char>, rest: Seq<char>)
    requires
        !head.contains('.'),
        !payload.contains('.'),
    ensures
        unverified_claims(head) is None,
        base64url_decoded(payload) is None ==> unverified_claims(
            head + seq!['.'] + payload + seq!['.'] + rest,
        ) is None,
        base64url_decoded(payload) matches Some(bytes) ==> unverified_claims(
            head + seq!['.'] + payload + seq!['.'] + rest,
        ) == json::json_parsed(bytes) && unverified_claims(head + seq!['.'] + payload)
            == json::json_parsed(bytes),
{
    let token = head + seq!['.'] + payload + seq!['.'] + rest;
    let short = head + seq!['.'] + payload;
    assert(token =~= head + seq!['.'] + (payload + seq!['.'] + rest));
    util::lemma_split_append(head, payload + seq!['.'] + rest, '.');
    util::lemma_split_append(payload, rest, '.');
    util::lemma_split_append(head, payload, '.');
    text::lemma_find(head, '.');
    text::lemma_find(payload, '.');
    assert(text::split(head, '.') =~= seq![head]);
    assert(text::split(payload, '.') =~= seq![payload]);
    assert(text::split(token, '.')[1] == payload);
    assert(text::split(short, '.')[1] == payload);
}

/// A claim that is read of a token that was not verified is the text of that member of its claims.
pub proof fn law_a_claim_is_the_text_of_its_member(token: Seq<char>, name: Seq<char>)
    ensures
        unverified_claims(token) is None ==> unverified_text(token, name) is None,
        forall|claims: serde_json::Value, value: serde_json::Value|
            unverified_claims(token) == Some(claims) && #[trigger] json::json_member(claims, name)
                == Some(value) ==> unverified_text(token, name) == #[trigger] json::json_text(
                value,
            ),
        forall|claims: serde_json::Value|
            unverified_claims(token) == Some(claims) && #[trigger] json::json_member(claims, name)
                is None ==> unverified_text(token, name) is None,
{
}

} // verus!
