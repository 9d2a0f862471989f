//! Token introspection: which tokens are active, and what is said of them.
//!
//! Every token that is not active is answered in the same way, whatever the reason: expired,
//! revoked, unknown, of another tenant, or a store that failed. Only a confidential client may
//! ask.

use vstd::prelude::*;

use crate::clock;
use crate::global_revocation::Authenticated;
use crate::json;
use crate::reply;
use crate::reply::Reply;
use crate::text;
use crate::token_credential;
use crate::token_credential::PresentedTokenKind;

verus! {

/// The type of an access token. A refresh token has none.
pub const BEARER_TOKEN_TYPE: &'static str = "Bearer";

/// What is said of a token. What does not apply is left out.
#[derive(Debug, PartialEq, Eq)]
pub struct IntrospectionClaims {
    /// Whether the token is active.
    pub active: bool,
    /// The granted scope.
    pub scope: Option<String>,
    /// The client that the token was issued to.
    pub client_id: Option<String>,
    /// The subject.
    pub sub: Option<String>,
    /// The type of the token.
    pub token_type: Option<String>,
    /// When it expires, in seconds since the epoch.
    pub exp: Option<i64>,
    /// When it was issued, in seconds since the epoch.
    pub iat: Option<i64>,
    /// The audiences.
    pub aud: Vec<String>,
}

/// The model of [`IntrospectionClaims`].
#[verifier::ext_equal]
pub struct ClaimsView {
    pub active: bool,
    pub scope: Option<Seq<char>>,
    pub client_id: Option<Seq<char>>,
    pub sub: Option<Seq<char>>,
    pub token_type: Option<Seq<char>>,
    pub exp: Option<i64>,
    pub iat: Option<i64>,
    pub aud: Seq<Seq<char>>,
}

impl View for IntrospectionClaims {
    type V = ClaimsView;

    open spec fn view(&self) -> ClaimsView {
        ClaimsView {
            active: self.active,
            scope: text::opt_text(self.scope),
            client_id: text::opt_text(self.client_id),
            sub: text::opt_text(self.sub),
            token_type: text::opt_text(self.token_type),
            exp: self.exp,
            iat: self.iat,
            aud: text::texts(self.aud@),
        }
    }
}

/// What is said of a token that is not active: that, and nothing else.
pub open spec fn not_active() -> ClaimsView {
    ClaimsView {
        active: false,
        scope: None,
        client_id: None,
        sub: None,
        token_type: None,
        exp: None,
        iat: None,
        aud: Seq::empty(),
    }
}

impl Default for IntrospectionClaims {
    fn default() -> (r: IntrospectionClaims)
        ensures
            r@ == not_active(),
    {
        IntrospectionClaims::inactive()
    }
}

impl IntrospectionClaims {
    /// What is said of a token that is not active.
    pub fn inactive() -> (r: IntrospectionClaims)
        ensures
            r@ == not_active(),
    {
        let r = IntrospectionClaims {
            active: false,
            scope: None,
            client_id: None,
            sub: None,
            token_type: None,
            exp: None,
            iat: None,
            aud: Vec::new(),
        };
        assert(r@ =~= not_active());
        r
    }
}

// ---------------------------------------------------------------------------
// Serializing
// ---------------------------------------------------------------------------

/// A response body with its media type.
#[derive(Debug, PartialEq, Eq)]
pub struct SerializedIntrospection {
    pub content_type: &'static str,
    pub body: String,
}

/// How introspection responses are written: as plain JSON, or in another form.
pub trait IntrospectionSerializer: Send + Sync {
    /// Writes the claims.
    fn serialize(&self, claims: &IntrospectionClaims) -> SerializedIntrospection;
}

/// The member with the audiences: none where there are none, a string for one, else an array.
pub open spec fn aud_field(aud: Seq<Seq<char>>) -> Seq<(Seq<char>, json::FieldView)> {
    if aud.len() == 0 {
        Seq::empty()
    } else if aud.len() == 1 {
        seq![("aud"@, json::FieldView::Text(aud[0]))]
    } else {
        seq![("aud"@, json::FieldView::Texts(aud))]
    }
}

/// The members of a response. Only whether the token is active is always there.
pub open spec fn members_of(c: ClaimsView) -> Seq<(Seq<char>, json::FieldView)> {
    seq![("active"@, json::FieldView::Bool(c.active))] + json::text_field("scope"@, c.scope) + json::text_field(
        "client_id"@,
        c.client_id,
    ) + json::text_field("sub"@, c.sub) + json::text_field("token_type"@, c.token_type) + json::int_field(
        "exp"@,
        c.exp,
    ) + json::int_field("iat"@, c.iat) + aud_field(c.aud)
}

/// Adds a text, where there is one.
pub fn insert_str(members: &mut Vec<(String, json::Field)>, name: &str, value: &Option<String>)
    ensures
        json::members_view(final(members)@) == json::members_view(old(members)@) + json::text_field(
            name@,
            text::opt_text(*value),
        ),
{
    match value {
        Some(s) => json::put(members, name, json::Field::Text(s.clone())),
        None => {},
    }
    assert(json::members_view(members@) =~= json::members_view(old(members)@) + json::text_field(
        name@,
        text::opt_text(*value),
    ));
}

/// Adds a number, where there is one.
pub fn insert_i64(members: &mut Vec<(String, json::Field)>, name: &str, value: Option<i64>)
    ensures
        json::members_view(final(members)@) == json::members_view(old(members)@) + json::int_field(name@, value),
{
    match value {
        Some(n) => json::put(members, name, json::Field::Int(n)),
        None => {},
    }
    assert(json::members_view(members@) =~= json::members_view(old(members)@) + json::int_field(name@, value));
}

/// Adds the audiences: as a string where there is one, as an array where there are more.
pub fn insert_aud(members: &mut Vec<(String, json::Field)>, audiences: &Vec<String>)
    ensures
        json::members_view(final(members)@) == json::members_view(old(members)@) + aud_field(
            text::texts(audiences@),
        ),
{
    let ghost all = text::texts(audiences@);
    assert(all.len() == audiences@.len());
    if audiences.len() == 1 {
        assert(all[0] == audiences@[0]@);
        json::put(members, "aud", json::Field::Text(audiences[0].clone()));
    } else if audiences.len() > 1 {
        json::put(members, "aud", json::Field::Texts(text::clone_texts(audiences)));
    }
    assert(json::members_view(members@) =~= json::members_view(old(members)@) + aud_field(all));
}

/// The members of a response, as they are written.
pub fn response_members(claims: &IntrospectionClaims) -> (r: Vec<(String, json::Field)>)
    ensures
        json::members_view(r@) == members_of(claims@),
{
    let mut members: Vec<(String, json::Field)> = Vec::new();
    json::put(&mut members, "active", json::Field::Bool(claims.active));
    assert(json::members_view(members@) =~= seq![("active"@, json::FieldView::Bool(claims.active))]);
    insert_str(&mut members, "scope", &claims.scope);
    insert_str(&mut members, "client_id", &claims.client_id);
    insert_str(&mut members, "sub", &claims.sub);
    insert_str(&mut members, "token_type", &claims.token_type);
    insert_i64(&mut members, "exp", claims.exp);
    insert_i64(&mut members, "iat", claims.iat);
    insert_aud(&mut members, &claims.aud);
    members
}

/// Writes responses as plain JSON.
#[derive(Debug, Clone, Copy)]
pub struct JsonIntrospectionSerializer;

impl Default for JsonIntrospectionSerializer {
    fn default() -> JsonIntrospectionSerializer {
        JsonIntrospectionSerializer
    }
}

impl IntrospectionSerializer for JsonIntrospectionSerializer {
    fn serialize(&self, claims: &IntrospectionClaims) -> (r: SerializedIntrospection)
        ensures
            r.content_type@ == "application/json"@,
            r.body@ == json::json_object_text(members_of(claims@)),
    {
        let members = response_members(claims);
        SerializedIntrospection { content_type: "application/json", body: json::object_text(&members) }
    }
}

/// The serializer where no other was installed.
pub fn default_serializer() -> JsonIntrospectionSerializer {
    JsonIntrospectionSerializer
}

// ---------------------------------------------------------------------------
// Asking
// ---------------------------------------------------------------------------

/// The parameters of an introspection request.
pub struct IntrospectParams {
    /// The token.
    pub token: Option<String>,
    /// What kind of token it may be. The token itself says that, so this changes nothing.
    pub token_type_hint: Option<String>,
    /// The client.
    pub client_id: Option<String>,
    /// The secret of the client.
    pub client_secret: Option<String>,
    /// The assertion of the client.
    pub client_assertion: Option<String>,
    /// The type of that assertion.
    pub client_assertion_type: Option<String>,
}

/// What an introspection request comes to.
#[derive(Debug, PartialEq, Eq)]
pub enum IntrospectStep {
    /// The client may not ask.
    Unauthorized,
    /// There is no token in the request.
    TokenRequired,
    /// This token is to be resolved in the scope of the client.
    Resolve(String),
}

/// What an introspection request comes to once the client is known.
pub fn introspect(client: Authenticated, params: &IntrospectParams) -> (r: IntrospectStep)
    ensures
        if !(client is Confidential) {
            r is Unauthorized
        } else {
            match crate::hints::cleaned(text::opt_text(params.token)) {
                None => r is TokenRequired,
                Some(token) => r matches IntrospectStep::Resolve(t) && t@ == token,
            }
        },
{
    match client {
        Authenticated::Confidential => {},
        _ => return IntrospectStep::Unauthorized,
    }
    match crate::hints::clean(crate::hints::borrowed(&params.token)) {
        Some(token) => IntrospectStep::Resolve(token),
        None => IntrospectStep::TokenRequired,
    }
}

/// What is said of a token that resolved to these claims, or to none.
pub fn answered(resolved: Option<IntrospectionClaims>) -> (r: IntrospectionClaims)
    ensures
        r@ == said(opt_claims(resolved)),
{
    match resolved {
        Some(claims) => claims,
        None => IntrospectionClaims::inactive(),
    }
}

/// The response: it is not to be stored.
pub fn introspection_reply(serialized: SerializedIntrospection) -> (r: Reply)
    ensures
        r@ == (reply::ReplyView {
            status: 200,
            headers: seq![
                ("content-type"@, serialized.content_type@),
                ("cache-control"@, "no-store"@),
                ("pragma"@, "no-cache"@),
            ],
            body: serialized.body@,
        }),
{
    let mut headers = reply::content_type(serialized.content_type);
    reply::add_header(&mut headers, "cache-control", "no-store");
    reply::add_header(&mut headers, "pragma", "no-cache");
    assert(reply::pairs(headers@) =~= seq![
        ("content-type"@, serialized.content_type@),
        ("cache-control"@, "no-store"@),
        ("pragma"@, "no-cache"@),
    ]);
    Reply { status: 200, headers, body: serialized.body }
}

// ---------------------------------------------------------------------------
// Resolving
// ---------------------------------------------------------------------------

/// The strings among the items of an array, in order.
pub open spec fn texts_among(items: Seq<serde_json::Value>) -> Seq<Seq<char>>
    decreases items.len(),
{
    if items.len() == 0 {
        Seq::empty()
    } else {
        let rest = texts_among(items.drop_last());
        match json::json_text(items.last()) {
            Some(s) => rest.push(s),
            None => rest,
        }
    }
}

/// The audiences in an `aud` claim: the string that it is, or the strings of the array that it
/// is; none where there is no string.
pub open spec fn audiences(aud: serde_json::Value) -> Option<Seq<Seq<char>>> {
    match json::json_text(aud) {
        Some(s) => Some(seq![s]),
        None => match json::json_items(aud) {
            Some(items) => if texts_among(items).len() == 0 {
                None
            } else {
                Some(texts_among(items))
            },
            None => None,
        },
    }
}

/// The audiences in an `aud` claim.
pub fn audiences_in(aud: &serde_json::Value) -> (r: Option<Vec<String>>)
    ensures
        match r {
            Some(list) => audiences(*aud) == Some(text::texts(list@)),
            None => audiences(*aud) is None,
        },
{
    match aud.as_str() {
        Some(s) => {
            let mut list: Vec<String> = Vec::new();
            text::push_text(&mut list, s);
            assert(text::texts(list@) =~= seq![s@]);
            return Some(list);
        },
        None => {},
    }
    match aud.as_array() {
        Some(items) => {
            let mut list: Vec<String> = Vec::new();
            let mut i: usize = 0;
            assert(text::texts(list@) =~= texts_among(items@.take(0)));
            while i < items.len()
                invariant
                    i <= items@.len(),
                    text::texts(list@) == texts_among(items@.take(i as int)),
                decreases items@.len() - i,
            {
                assert(items@.take(i + 1).drop_last() =~= items@.take(i as int));
                match items[i].as_str() {
                    Some(s) => text::push_text(&mut list, s),
                    None => {},
                }
                i = i + 1;
            }
            assert(items@.take(items@.len() as int) =~= items@);
            assert(text::texts(list@).len() == list@.len());
            if list.len() == 0 {
                None
            } else {
                Some(list)
            }
        },
        None => None,
    }
}

/// The audiences that a token claims, without verifying it.
pub open spec fn claimed_audiences(token: Seq<char>) -> Option<Seq<Seq<char>>> {
    match token_credential::unverified_claims(token) {
        None => None,
        Some(claims) => match json::json_member(claims, "aud"@) {
            None => None,
            Some(aud) => audiences(aud),
        },
    }
}

/// The audiences that a token claims, without verifying it: one of them has to verify.
pub fn peek_audiences(token: &str) -> (r: Option<Vec<String>>)
    ensures
        match r {
            Some(list) => claimed_audiences(token@) == Some(text::texts(list@)),
            None => claimed_audiences(token@) is None,
        },
{
    match token_credential::peek_claims(token) {
        Some(claims) => match json::member(&claims, "aud") {
            Some(aud) => audiences_in(aud),
            None => None,
        },
        None => None,
    }
}

/// What comes next in verifying a token against its audiences.
pub enum AudienceStep<T> {
    /// Verify it against this audience.
    Try(String),
    /// It verified.
    Verified(T),
    /// It verified under none of them.
    Exhausted,
}

/// Verifies a token against its audiences one after the other: `tried` of them were tried, and
/// `last` is what the last trial gave. The first that verifies decides.
pub fn verify_any_audience<T>(audiences: &Vec<String>, tried: usize, last: Option<T>) -> (r:
    AudienceStep<T>)
    ensures
        match last {
            Some(verified) => r == AudienceStep::Verified(verified),
            None => if tried < audiences@.len() {
                r matches AudienceStep::Try(a) && a@ == audiences@[tried as int]@
            } else {
                r is Exhausted
            },
        },
{
    match last {
        Some(verified) => AudienceStep::Verified(verified),
        None => if tried < audiences.len() {
            AudienceStep::Try(audiences[tried].clone())
        } else {
            AudienceStep::Exhausted
        },
    }
}

/// What a verified access token claims.
pub struct VerifiedClaims {
    pub scope: Option<String>,
    pub client_id: Option<String>,
    pub sub: Option<String>,
    pub exp: Option<i64>,
    pub iat: Option<i64>,
    pub aud: Vec<String>,
}

/// The model of optional claims.
pub open spec fn opt_claims(claims: Option<IntrospectionClaims>) -> Option<ClaimsView> {
    match claims {
        Some(c) => Some(c@),
        None => None,
    }
}

/// What is said of an access token that carries its claims: nothing, unless the grant behind it is
/// live and the token verified.
pub open spec fn jwt_claims(grant_active: bool, verified: Option<VerifiedClaims>) -> Option<
    ClaimsView,
> {
    match verified {
        Some(v) => if grant_active {
            Some(
                ClaimsView {
                    active: true,
                    scope: text::opt_text(v.scope),
                    client_id: text::opt_text(v.client_id),
                    sub: text::opt_text(v.sub),
                    token_type: Some(BEARER_TOKEN_TYPE@),
                    exp: v.exp,
                    iat: v.iat,
                    aud: text::texts(v.aud@),
                },
            )
        } else {
            None
        },
        None => None,
    }
}

/// What is said of an access token that carries its claims. The grant behind it must be live, and
/// the token must have verified; `verified` is absent where it did not, under any of its
/// audiences.
pub fn resolve_jwt(grant_active: bool, verified: Option<VerifiedClaims>) -> (r: Option<
    IntrospectionClaims,
>)
    ensures
        opt_claims(r) == jwt_claims(grant_active, verified),
{
    if !grant_active {
        return None;
    }
    match verified {
        Some(v) => Some(
            IntrospectionClaims {
                active: true,
                scope: v.scope,
                client_id: v.client_id,
                sub: v.sub,
                token_type: Some(BEARER_TOKEN_TYPE.to_owned()),
                exp: v.exp,
                iat: v.iat,
                aud: v.aud,
            },
        ),
        None => None,
    }
}

/// A live opaque access token, as it is stored.
pub struct OpaqueGrant {
    pub scope: Option<String>,
    pub client_id: String,
    pub expires_at_unix_micros: i64,
    pub issued_at_unix_micros: i64,
    pub audiences: Vec<String>,
}

/// What is said of an opaque access token, where there is a live one.
pub open spec fn opaque_claims(grant: Option<OpaqueGrant>, public_subject: Seq<char>) -> Option<
    ClaimsView,
> {
    match grant {
        Some(g) => Some(
            ClaimsView {
                active: true,
                scope: text::opt_text(g.scope),
                client_id: Some(g.client_id@),
                sub: Some(public_subject),
                token_type: Some(BEARER_TOKEN_TYPE@),
                exp: Some((g.expires_at_unix_micros as int / 1_000_000) as i64),
                iat: Some((g.issued_at_unix_micros as int / 1_000_000) as i64),
                aud: text::texts(g.audiences@),
            },
        ),
        None => None,
    }
}

/// What is said of an opaque access token; `public_subject` is what its subject is called.
pub fn resolve_opaque(grant: Option<OpaqueGrant>, public_subject: &str) -> (r: Option<
    IntrospectionClaims,
>)
    ensures
        opt_claims(r) == opaque_claims(grant, public_subject@),
{
    match grant {
        Some(g) => Some(
            IntrospectionClaims {
                active: true,
                scope: g.scope,
                client_id: Some(g.client_id),
                sub: Some(public_subject.to_owned()),
                token_type: Some(BEARER_TOKEN_TYPE.to_owned()),
                exp: Some(clock::secs_of_micros(g.expires_at_unix_micros)),
                iat: Some(clock::secs_of_micros(g.issued_at_unix_micros)),
                aud: g.audiences,
            },
        ),
        None => None,
    }
}

/// A refresh token, as it is stored.
pub struct RefreshGrant {
    /// Its family and its grant are live.
    pub active: bool,
    /// Another one took its place.
    pub rotated: bool,
    pub idle_expires_at_unix_micros: i64,
    pub family_absolute_expires_at_unix_micros: i64,
    pub issued_at_unix_micros: i64,
    pub scope: Option<String>,
    pub client_id: String,
}

/// A refresh token is live: so are its family and its grant, none took its place, and neither it
/// nor its family has expired.
pub open spec fn refresh_live(g: RefreshGrant, now_micros: i64) -> bool {
    &&& g.active
    &&& !g.rotated
    &&& g.idle_expires_at_unix_micros > now_micros
    &&& g.family_absolute_expires_at_unix_micros > now_micros
}

/// What is said of a refresh token, where there is a live one: it has neither a type nor an
/// audience.
pub open spec fn refresh_claims(
    grant: Option<RefreshGrant>,
    now_micros: i64,
    public_subject: Seq<char>,
) -> Option<ClaimsView> {
    match grant {
        Some(g) => if refresh_live(g, now_micros) {
            Some(
                ClaimsView {
                    active: true,
                    scope: text::opt_text(g.scope),
                    client_id: Some(g.client_id@),
                    sub: Some(public_subject),
                    token_type: None,
                    exp: Some((g.idle_expires_at_unix_micros as int / 1_000_000) as i64),
                    iat: Some((g.issued_at_unix_micros as int / 1_000_000) as i64),
                    aud: Seq::empty(),
                },
            )
        } else {
            None
        },
        None => None,
    }
}

/// What is said of a refresh token.
pub fn resolve_refresh(grant: Option<RefreshGrant>, now_micros: i64, public_subject: &str) -> (r:
    Option<IntrospectionClaims>)
    ensures
        opt_claims(r) == refresh_claims(grant, now_micros, public_subject@),
{
    match grant {
        Some(g) => {
            let live: bool = g.active && !g.rotated && g.idle_expires_at_unix_micros > now_micros
                && g.family_absolute_expires_at_unix_micros > now_micros;
            if !live {
                return None;
            }
            let c = IntrospectionClaims {
                active: true,
                scope: g.scope,
                client_id: Some(g.client_id),
                sub: Some(public_subject.to_owned()),
                token_type: None,
                exp: Some(clock::secs_of_micros(g.idle_expires_at_unix_micros)),
                iat: Some(clock::secs_of_micros(g.issued_at_unix_micros)),
                aud: Vec::new(),
            };
            assert(text::texts(c.aud@) =~= Seq::empty());
            Some(c)
        },
        None => None,
    }
}

/// What is known of a token that is being resolved. What is absent was not looked up yet.
pub struct Resolving {
    /// Whether the grant behind an access token that carries its claims is live; none where the
    /// scope of the client has no such token, or where the store failed.
    pub issued: Option<Option<bool>>,
    /// The opaque access token, where there is a live one.
    pub opaque: Option<Option<OpaqueGrant>>,
    /// The refresh token, where there is one.
    pub refresh: Option<Option<RefreshGrant>>,
    /// How many of the audiences were tried.
    pub tried: usize,
    /// What the token claims, where the last trial verified it.
    pub verified: Option<VerifiedClaims>,
    /// Now, in microseconds since the epoch.
    pub now_micros: i64,
    /// What the subject of the stored token is called.
    pub public_subject: String,
}

/// What comes next in resolving a token.
pub enum ResolveStep {
    /// Look up the access token of this identifier, in the scope of the client.
    LookUpIssued { jti: String },
    /// Look up the opaque access token, in the scope of the client.
    LookUpOpaque,
    /// Look up the refresh token, in the scope of the client.
    LookUpRefresh,
    /// Verify the access token against this audience.
    Verify { audience: String },
    /// This is said of the token.
    Answer(IntrospectionClaims),
}

/// What is said where a token resolved to these claims, or to none.
pub open spec fn said(claims: Option<ClaimsView>) -> ClaimsView {
    match claims {
        Some(c) => c,
        None => not_active(),
    }
}

/// What comes next for an access token that carries its claims: the store is asked first whether
/// the grant is live, and then the token must verify under one of its audiences.
pub open spec fn jwt_follows(token: Seq<char>, f: Resolving, step: ResolveStep) -> bool {
    match token_credential::unverified_text(token, "jti"@) {
        None => step matches ResolveStep::Answer(c) && c@ == not_active(),
        Some(id) => match f.issued {
            None => step matches ResolveStep::LookUpIssued { jti } && jti@ == id,
            Some(None) | Some(Some(false)) => step matches ResolveStep::Answer(c) && c@
                == not_active(),
            Some(Some(true)) => match (claimed_audiences(token), f.verified) {
                (None, _) => step matches ResolveStep::Answer(c) && c@ == not_active(),
                (Some(_), Some(_)) => step matches ResolveStep::Answer(c) && c@ == said(
                    jwt_claims(true, f.verified),
                ),
                (Some(list), None) => if f.tried < list.len() {
                    step matches ResolveStep::Verify { audience } && audience@ == list[f.tried as int]
                } else {
                    step matches ResolveStep::Answer(c) && c@ == not_active()
                },
            },
        },
    }
}

/// What comes next in resolving a token, by the kind that it says it is.
pub open spec fn resolve_follows(token: Seq<char>, f: Resolving, step: ResolveStep) -> bool {
    match token_credential::kind_of(token) {
        PresentedTokenKind::Refresh => match f.refresh {
            None => step is LookUpRefresh,
            Some(grant) => step matches ResolveStep::Answer(c) && c@ == said(
                refresh_claims(grant, f.now_micros, f.public_subject@),
            ),
        },
        PresentedTokenKind::OpaqueAccess => match f.opaque {
            None => step is LookUpOpaque,
            Some(grant) => step matches ResolveStep::Answer(c) && c@ == said(
                opaque_claims(grant, f.public_subject@),
            ),
        },
        PresentedTokenKind::JwtAccess => jwt_follows(token, f, step),
    }
}

/// What comes next for an access token that carries its claims.
fn resolve_claims(token: &str, f: Resolving) -> (r: ResolveStep)
    ensures
        jwt_follows(token@, f, r),
{
    let jti: String = match token_credential::peek_unverified_claim(token, "jti") {
        Some(jti) => jti,
        None => return ResolveStep::Answer(answered(None)),
    };
    let active: bool = match f.issued {
        None => return ResolveStep::LookUpIssued { jti },
        Some(issued) => match issued {
            Some(active) => active,
            None => false,
        },
    };
    if !active {
        return ResolveStep::Answer(answered(None));
    }
    let list: Vec<String> = match peek_audiences(token) {
        Some(list) => list,
        None => return ResolveStep::Answer(answered(None)),
    };
    let ghost all = text::texts(list@);
    assert(all.len() == list@.len());
    match verify_any_audience(&list, f.tried, f.verified) {
        AudienceStep::Try(audience) => {
            assert(all[f.tried as int] == list@[f.tried as int]@);
            ResolveStep::Verify { audience }
        },
        AudienceStep::Verified(verified) => ResolveStep::Answer(
            answered(resolve_jwt(true, Some(verified))),
        ),
        AudienceStep::Exhausted => ResolveStep::Answer(answered(None)),
    }
}

/// What comes next in resolving a token within the scope of the client that asks.
pub fn resolve(token: &str, f: Resolving) -> (r: ResolveStep)
    ensures
        resolve_follows(token@, f, r),
{
    match token_credential::classify(token) {
        PresentedTokenKind::Refresh => match f.refresh {
            None => ResolveStep::LookUpRefresh,
            Some(grant) => ResolveStep::Answer(
                answered(resolve_refresh(grant, f.now_micros, f.public_subject.as_str())),
            ),
        },
        PresentedTokenKind::OpaqueAccess => match f.opaque {
            None => ResolveStep::LookUpOpaque,
            Some(grant) => ResolveStep::Answer(
                answered(resolve_opaque(grant, f.public_subject.as_str())),
            ),
        },
        PresentedTokenKind::JwtAccess => resolve_claims(token, f),
    }
}

// ---------------------------------------------------------------------------
// Laws
// ---------------------------------------------------------------------------

/// Whatever makes a token not active, the same is said of it; and what is said to be active was
/// found in the store, in the scope of the client.
pub proof fn law_tokens_that_are_not_active_look_alike(
    token: Seq<char>,
    f: Resolving,
    claims: IntrospectionClaims,
)
    requires
        resolve_follows(token, f, ResolveStep::Answer(claims)),
    ensures
        !claims.active ==> claims@ == not_active(),
        claims.active ==> match token_credential::kind_of(token) {
            PresentedTokenKind::Refresh => f.refresh matches Some(Some(g)) && refresh_live(
                g,
                f.now_micros,
            ),
            PresentedTokenKind::OpaqueAccess => f.opaque matches Some(Some(_)),
            PresentedTokenKind::JwtAccess => f.issued == Some(Some(true)) && f.verified is Some,
        },
{
}

/// A revoked grant makes a token not active, though its signature still verifies.
pub proof fn law_a_revoked_grant_is_not_active(
    token: Seq<char>,
    f: Resolving,
    claims: IntrospectionClaims,
)
    requires
        token_credential::kind_of(token) is JwtAccess,
        f.issued == Some(Some(false)),
        resolve_follows(token, f, ResolveStep::Answer(claims)),
    ensures
        claims@ == not_active(),
{
}

/// A response for a token that is not active has one member, and so does not tell why.
pub proof fn law_an_inactive_response_says_nothing_else(claims: ClaimsView)
    requires
        claims == not_active(),
    ensures
        members_of(claims) == seq![("active"@, json::FieldView::Bool(false))],
{
    assert(members_of(claims) =~= seq![("active"@, json::FieldView::Bool(false))]);
}

/// With a clock that cannot be read no refresh token is live.
pub proof fn law_an_unreadable_clock_keeps_nothing_alive(g: RefreshGrant, now: i128)
    requires
        now < 0 || now / 1000 > i64::MAX,
    ensures
        !refresh_live(g, clock::micros_of(now)),
{
}

/// What is said of an access token that carries its claims is what it claims, word for word, once
/// the store knows it as live and it verified; nothing then is left to decide.
pub proof fn law_a_verified_token_is_told_as_it_claims(
    token: Seq<char>,
    f: Resolving,
    v: VerifiedClaims,
    step: ResolveStep,
)
    requires
        !("ira_rt_"@.is_prefix_of(token)),
        !("ira_at_"@.is_prefix_of(token)),
        resolve_follows(token, f, step),
        token_credential::unverified_text(token, "jti"@) is Some,
        claimed_audiences(token) is Some,
        f.issued == Some(Some(true)),
        f.verified == Some(v),
    ensures
        step matches ResolveStep::Answer(c) && c.active && text::opt_text(c.scope)
            == text::opt_text(v.scope) && text::opt_text(c.client_id) == text::opt_text(v.client_id)
            && text::opt_text(c.sub) == text::opt_text(v.sub) && text::opt_text(c.token_type)
            == Some("Bearer"@) && c.exp == v.exp && c.iat == v.iat && text::texts(c.aud@)
            == text::texts(v.aud@),
{
    reveal_strlit("Bearer");
}

/// Whenever an access token that carries its claims is said to be active, what is said of it is what
/// it claims.
pub proof fn law_an_active_token_is_told_as_it_claims(
    token: Seq<char>,
    f: Resolving,
    claims: IntrospectionClaims,
)
    requires
        token_credential::kind_of(token) is JwtAccess,
        resolve_follows(token, f, ResolveStep::Answer(claims)),
        claims.active,
    ensures
        f.issued == Some(Some(true)),
        f.verified matches Some(v) && text::opt_text(claims.scope) == text::opt_text(v.scope)
            && text::opt_text(claims.client_id) == text::opt_text(v.client_id) && text::opt_text(
            claims.sub,
        ) == text::opt_text(v.sub) && text::opt_text(claims.token_type) == Some("Bearer"@)
            && claims.exp == v.exp && claims.iat == v.iat && text::texts(claims.aud@)
            == text::texts(v.aud@),
{
}

/// Before a token that carries its claims verified, the store is asked for its identifier; where
/// the store knows it as live, each of the audiences that it claims is tried, in their order; and
/// where it knows it as anything else, or where none is left to try, the token is not active.
pub proof fn law_a_token_is_looked_up_before_it_is_verified(
    token: Seq<char>,
    f: Resolving,
    step: ResolveStep,
)
    requires
        token_credential::kind_of(token) is JwtAccess,
        resolve_follows(token, f, step),
        f.verified is None,
    ensures
        token_credential::unverified_text(token, "jti"@) is None ==> (step matches ResolveStep::Answer(
            c,
        ) && !c.active),
        token_credential::unverified_text(token, "jti"@) matches Some(id) ==> (f.issued is None ==> (
        step matches ResolveStep::LookUpIssued { jti } && jti@ == id)),
        (f.issued matches Some(known) && known != Some(true)) ==> (step matches ResolveStep::Answer(
            c,
        ) && !c.active),
        token_credential::unverified_text(token, "jti"@) is Some && f.issued == Some(Some(true)) ==> (
        match claimed_audiences(token) {
            None => step matches ResolveStep::Answer(c) && !c.active,
            Some(list) => {
                &&& f.tried < list.len() ==> (step matches ResolveStep::Verify { audience }
                    && audience@ == list[f.tried as int])
                &&& f.tried >= list.len() ==> (step matches ResolveStep::Answer(c) && !c.active)
            },
        }),
{
}

/// An opaque access token that the store has is active, and is told with the scope, the client, the
/// audiences and the times that are stored, in whole seconds; one that it has not is not active.
pub proof fn law_an_opaque_token_is_told_as_it_is_stored(
    token: Seq<char>,
    f: Resolving,
    step: ResolveStep,
)
    requires
        token_credential::kind_of(token) is OpaqueAccess,
        resolve_follows(token, f, step),
    ensures
        f.opaque is None ==> step is LookUpOpaque,
        f.opaque == Some(None::<OpaqueGrant>) ==> (step matches ResolveStep::Answer(c) && !c.active),
        f.opaque matches Some(Some(g)) ==> (step matches ResolveStep::Answer(c) && c.active
            && text::opt_text(c.scope) == text::opt_text(g.scope) && text::opt_text(c.client_id)
            == Some(g.client_id@) && text::opt_text(c.sub) == Some(f.public_subject@)
            && text::opt_text(c.token_type) == Some("Bearer"@) && text::texts(c.aud@)
            == text::texts(g.audiences@) && c.exp is Some && c.iat is Some && c.exp->0 * 1_000_000
            <= g.expires_at_unix_micros < (c.exp->0 + 1) * 1_000_000 && c.iat->0 * 1_000_000
            <= g.issued_at_unix_micros < (c.iat->0 + 1) * 1_000_000),
{
}

/// A refresh token is active as long as its family and its grant are live, none took its place, and
/// neither its own time nor that of its family has come. It is told with what is stored, without a
/// type and without an audience, and expires when it has been idle for too long.
pub proof fn law_a_refresh_token_is_told_as_it_is_stored(
    token: Seq<char>,
    f: Resolving,
    step: ResolveStep,
)
    requires
        token_credential::kind_of(token) is Refresh,
        resolve_follows(token, f, step),
    ensures
        f.refresh is None ==> step is LookUpRefresh,
        f.refresh == Some(None::<RefreshGrant>) ==> (step matches ResolveStep::Answer(c)
            && !c.active),
        f.refresh matches Some(Some(g)) ==> {
            let live = g.active && !g.rotated && f.now_micros < g.idle_expires_at_unix_micros
                && f.now_micros < g.family_absolute_expires_at_unix_micros;
            step matches ResolveStep::Answer(c) && c.active == live && (live ==> text::opt_text(
                c.scope,
            ) == text::opt_text(g.scope) && text::opt_text(c.client_id) == Some(g.client_id@)
                && text::opt_text(c.sub) == Some(f.public_subject@) && c.token_type is None
                && c.aud@.len() == 0 && c.exp is Some && c.iat is Some && c.exp->0 * 1_000_000
                <= g.idle_expires_at_unix_micros < (c.exp->0 + 1) * 1_000_000 && c.iat->0
                * 1_000_000 <= g.issued_at_unix_micros < (c.iat->0 + 1) * 1_000_000)
        },
{
    assert(f.refresh matches Some(Some(_)) ==> (step matches ResolveStep::Answer(c)
        && text::texts(c.aud@).len() == c.aud@.len()));
}

/// The response has a member for each thing that is said of the token, under the name that it is
/// registered with, and no other.
pub proof fn law_a_response_has_what_is_said(c: ClaimsView)
    ensures
        members_of(c)[0] == ("active"@, json::FieldView::Bool(c.active)),
        c.scope matches Some(s) ==> members_of(c).contains(("scope"@, json::FieldView::Text(s))),
        c.client_id matches Some(s) ==> members_of(c).contains(
            ("client_id"@, json::FieldView::Text(s)),
        ),
        c.sub matches Some(s) ==> members_of(c).contains(("sub"@, json::FieldView::Text(s))),
        c.token_type matches Some(s) ==> members_of(c).contains(
            ("token_type"@, json::FieldView::Text(s)),
        ),
        c.exp matches Some(n) ==> members_of(c).contains(("exp"@, json::FieldView::Int(n as int))),
        c.iat matches Some(n) ==> members_of(c).contains(("iat"@, json::FieldView::Int(n as int))),
        c.aud.len() == 1 ==> members_of(c).contains(("aud"@, json::FieldView::Text(c.aud[0]))),
        c.aud.len() > 1 ==> members_of(c).contains(("aud"@, json::FieldView::Texts(c.aud))),
        members_of(c).len() == 1 + (if c.scope is Some {
            1int
        } else {
            0
        }) + (if c.client_id is Some {
            1int
        } else {
            0
        }) + (if c.sub is Some {
            1int
        } else {
            0
        }) + (if c.token_type is Some {
            1int
        } else {
            0
        }) + (if c.exp is Some {
            1int
        } else {
            0
        }) + (if c.iat is Some {
            1int
        } else {
            0
        }) + (if c.aud.len() > 0 {
            1int
        } else {
            0
        }),
{
    let a = seq![("active"@, json::FieldView::Bool(c.active))];
    let b = a + json::text_field("scope"@, c.scope);
    let d = b + json::text_field("client_id"@, c.client_id);
    let e = d + json::text_field("sub"@, c.sub);
    let g = e + json::text_field("token_type"@, c.token_type);
    let h = g + json::int_field("exp"@, c.exp);
    let i = h + json::int_field("iat"@, c.iat);
    let all = members_of(c);
    assert(all == i + aud_field(c.aud));
    if c.scope is Some {
        assert(all[a.len() as int] == ("scope"@, json::FieldView::Text(c.scope->0)));
    }
    if c.client_id is Some {
        assert(all[b.len() as int] == ("client_id"@, json::FieldView::Text(c.client_id->0)));
    }
    if c.sub is Some {
        assert(all[d.len() as int] == ("sub"@, json::FieldView::Text(c.sub->0)));
    }
    if c.token_type is Some {
        assert(all[e.len() as int] == ("token_type"@, json::FieldView::Text(c.token_type->0)));
    }
    if c.exp is Some {
        assert(all[g.len() as int] == ("exp"@, json::FieldView::Int(c.exp->0 as int)));
    }
    if c.iat is Some {
        assert(all[h.len() as int] == ("iat"@, json::FieldView::Int(c.iat->0 as int)));
    }
    if c.aud.len() == 1 {
        assert(all[i.len() as int] == ("aud"@, json::FieldView::Text(c.aud[0])));
    } else if c.aud.len() > 1 {
        assert(all[i.len() as int] == ("aud"@, json::FieldView::Texts(c.aud)));
    }
}

/// The audiences of a token are the one text that its claim is, or the texts of the list that it
/// is, all of them and in their order.
pub proof fn law_the_audiences_are_those_of_the_claim(
    aud: serde_json::Value,
    items: Seq<serde_json::Value>,
    list: Seq<Seq<char>>,
)
    ensures
        json::json_text(aud) matches Some(s) ==> audiences(aud) == Some(seq![s]),
        json::json_text(aud) is None && json::json_items(aud) is None ==> audiences(aud) is None,
        json::json_text(aud) is None && json::json_items(aud) == Some(items) && items.len()
            == list.len() && list.len() > 0 && (forall|k: int|
            0 <= k < items.len() ==> json::json_text(#[trigger] items[k]) == Some(list[k]))
            ==> audiences(aud) == Some(list),
        json::json_text(aud) is None && json::json_items(aud) == Some(items) && (forall|k: int|
            0 <= k < items.len() ==> json::json_text(#[trigger] items[k]) is None) ==> audiences(
            aud,
        ) is None,
{
    if items.len() == list.len() && (forall|k: int|
        0 <= k < items.len() ==> json::json_text(#[trigger] items[k]) == Some(list[k])) {
        lemma_all_texts(items, list);
    }
    if forall|k: int| 0 <= k < items.len() ==> json::json_text(#[trigger] items[k]) is None {
        lemma_no_texts(items);
    }
}

proof fn lemma_all_texts(items: Seq<serde_json::Value>, list: Seq<Seq<char>>)
    requires
        items.len() == list.len(),
        forall|k: int|
            0 <= k < items.len() ==> json::json_text(#[trigger] items[k]) == Some(list[k]),
    ensures
        texts_among(items) == list,
    decreases items.len(),
{
    if items.len() == 0 {
        assert(texts_among(items) =~= list);
    } else {
        assert forall|k: int| 0 <= k < items.drop_last().len() implies json::json_text(
            #[trigger] items.drop_last()[k],
        ) == Some(list.drop_last()[k]) by {
            assert(items.drop_last()[k] == items[k]);
        }
        lemma_all_texts(items.drop_last(), list.drop_last());
        assert(json::json_text(items[items.len() - 1]) == Some(list.last()));
        assert(list.drop_last().push(list.last()) =~= list);
    }
}

proof fn lemma_no_texts(items: Seq<serde_json::Value>)
    requires
        forall|k: int| 0 <= k < items.len() ==> json::json_text(#[trigger] items[k]) is None,
    ensures
        texts_among(items).len() == 0,
    decreases items.len(),
{
    if items.len() > 0 {
        assert forall|k: int| 0 <= k < items.drop_last().len() implies json::json_text(
            #[trigger] items.drop_last()[k],
        ) is None by {
            assert(items.drop_last()[k] == items[k]);
        }
        lemma_no_texts(items.drop_last());
        assert(json::json_text(items[items.len() - 1]) is None);
    }
}

/// The audiences that a token claims are those of its `aud` member, and of no other; a token without
/// claims, and one without that member, claims none.
pub proof fn law_the_audiences_are_read_under_their_name(token: Seq<char>)
    ensures
        token_credential::unverified_claims(token) is None ==> claimed_audiences(token) is None,
        token_credential::unverified_claims(token) matches Some(claims) ==> {
            &&& json::json_member(claims, "aud"@) is None ==> claimed_audiences(token) is None
            &&& json::json_member(claims, "aud"@) matches Some(aud) ==> claimed_audiences(token)
                == audiences(aud)
        },
{
}

/// What is said of a token is what its response holds, each thing in its own place.
pub proof fn law_a_response_holds_what_is_said(c: IntrospectionClaims)
    ensures
        c@.active == c.active,
        c.scope matches Some(s) ==> c@.scope == Some(s@),
        c.scope is None ==> c@.scope is None,
        c.client_id matches Some(s) ==> c@.client_id == Some(s@),
        c.client_id is None ==> c@.client_id is None,
        c.sub matches Some(s) ==> c@.sub == Some(s@),
        c.sub is None ==> c@.sub is None,
        c.token_type matches Some(s) ==> c@.token_type == Some(s@),
        c.token_type is None ==> c@.token_type is None,
        c@.exp == c.exp,
        c@.iat == c.iat,
        c@.aud.len() == c.aud@.len(),
        forall|i: int| 0 <= i < c.aud@.len() ==> #[trigger] c@.aud[i] == c.aud@[i]@,
{
}

} // verus!
