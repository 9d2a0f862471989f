//! Signing in by a link in an email.
//!
//! A link that is merely opened consumes nothing: it shows a page, and only the form on that page
//! consumes it, from our own site. The browser that asked for the link holds a cookie; on another
//! device the link does not sign in, and the short code of the same email does, on the first one.
//! Who asks for a link learns nothing about the account.

use vstd::prelude::*;

use crate::authn::AuthMethod;
use crate::authn::AuthenticationEvent;
use crate::clock;
use crate::hashing_pool::HashRejection;
use crate::headers::Headers;
use crate::hints;
use crate::interaction;
use crate::interaction::EstablishSessionError;
use crate::interaction::Notice;
use crate::interaction::SessionCookies;
use crate::login;
use crate::reply::Reply;
use crate::scope_map::Scope;
use crate::text;
use crate::token_credential;
use crate::util;

verus! {

/// What a token of a link begins with.
pub const MAGIC_LINK_PREFIX: &'static str = "ira_mlk_";

/// What stands between the handle and the secret of a token.
pub const MAGIC_LINK_DELIMITER: char = '~';

/// The request for a link.
pub struct SendBody {
    pub identifier: Option<String>,
    /// What the link is for; to sign in where that is left out.
    pub purpose: Option<String>,
}

/// The query of the page behind a link.
pub struct ConfirmQuery {
    pub token: Option<String>,
}

/// The form that consumes a link.
pub struct ConsumeForm {
    pub token: Option<String>,
    pub short_code: Option<String>,
}

// ---------------------------------------------------------------------------
// Tokens and links
// ---------------------------------------------------------------------------

/// The token with this handle and this secret, as text.
pub open spec fn token_of(id: Seq<char>, secret: Seq<char>) -> Seq<char> {
    MAGIC_LINK_PREFIX@ + id + seq![MAGIC_LINK_DELIMITER] + secret
}

/// The token with this handle and this secret.
pub open spec fn token_text(id: Seq<char>, secret: Seq<u8>) -> Seq<char> {
    token_of(id, token_credential::base64url_encoded(secret))
}

/// The token with this handle and this secret, as text.
pub fn join_token(id: &str, secret: &str) -> (r: String)
    ensures
        r@ == token_of(id@, secret@),
{
    let mut token = MAGIC_LINK_PREFIX.to_owned();
    token.append(id);
    token.push(MAGIC_LINK_DELIMITER);
    token.append(secret);
    assert(token@ =~= token_of(id@, secret@));
    token
}

/// The token with this handle, from as many bytes of chance.
pub fn generate_token(id: &str, secret: [u8; 32]) -> (r: String)
    ensures
        r@ == token_text(id@, secret@),
{
    join_token(id, token_credential::encode_base64url(secret.as_slice()).as_str())
}

/// Bytes of chance as text that may stand in a cookie and in a policy.
pub fn generate_hex(bytes: &[u8]) -> (r: String)
    ensures
        r@ == util::hex(bytes@),
{
    util::hex_text(bytes)
}

/// A nonce, from as many bytes of chance.
pub fn script_nonce(bytes: [u8; 16]) -> (r: String)
    ensures
        r@ == util::hex(bytes@),
        r@.len() == 32,
{
    proof {
        util::law_hexadecimal_is_plain(bytes@);
    }
    generate_hex(bytes.as_slice())
}

/// The page behind a link.
pub open spec fn confirm_path(tenant: Seq<char>, environment: Seq<char>) -> Seq<char> {
    login::scope_path(tenant, environment) + "/magic/confirm"@
}

/// The link for a token: the token is in the fragment, or in the query.
pub open spec fn link_text(
    base: Seq<char>,
    tenant: Seq<char>,
    environment: Seq<char>,
    token: Seq<char>,
    fragment: bool,
) -> Seq<char> {
    if fragment {
        base + confirm_path(tenant, environment) + "#"@ + token
    } else {
        base + confirm_path(tenant, environment) + "?token="@ + util::percent_encoded(
            vstd::utf8::encode_utf8(token),
        )
    }
}

/// The link for a token.
pub fn confirm_link(self_origin: Option<&str>, scope: &Scope, token: &str, fragment: bool) -> (r:
    String)
    ensures
        r@ == link_text(
            login::given(text::opt_str(self_origin)),
            scope.tenant@,
            scope.environment@,
            token@,
            fragment,
        ),
{
    let mut link: String = match self_origin {
        Some(base) => base.to_owned(),
        None => String::new(),
    };
    link.append(login::path_of(scope).as_str());
    link.append("/magic/confirm");
    assert(link@ =~= login::given(text::opt_str(self_origin)) + confirm_path(
        scope.tenant@,
        scope.environment@,
    ));
    if fragment {
        link.append("#");
        link.append(token);
    } else {
        link.append("?token=");
        link.append(util::percent_encode_query(token).as_str());
    }
    link
}

// ---------------------------------------------------------------------------
// Notices
// ---------------------------------------------------------------------------

/// The answer to every request for a link.
pub open spec fn acknowledges(n: Notice, status: u16) -> bool {
    interaction::says(
        n,
        status,
        "Check your email"@,
        "If an account exists for that address, we have sent a sign-in link and code."@,
    )
}

/// The answer to every request for a link.
pub fn ack_page() -> (r: Notice)
    ensures
        acknowledges(r, 200),
{
    Notice {
        status: 200,
        title: "Check your email",
        message: "If an account exists for that address, we have sent a sign-in link and code.",
    }
}

/// The link is good for nothing, whatever the reason.
pub open spec fn refuses(n: Notice) -> bool {
    interaction::says(
        n,
        400,
        "Link no longer valid"@,
        "This sign-in link is invalid, expired, or already used. Request a new one to continue."@,
    )
}

/// The link is good for nothing, whatever the reason.
pub fn invalid_page() -> (r: Notice)
    ensures
        refuses(r),
{
    Notice {
        status: 400,
        title: "Link no longer valid",
        message: "This sign-in link is invalid, expired, or already used. Request a new one to continue.",
    }
}

/// The scope or the feature is not there.
pub open spec fn absent(n: Notice) -> bool {
    interaction::says(
        n,
        400,
        "Link no longer valid"@,
        "This sign-in link is missing or invalid. Start the sign-in from the application again."@,
    )
}

/// Something failed.
pub open spec fn fails(n: Notice) -> bool {
    interaction::says(
        n,
        500,
        "Something went wrong"@,
        "The request could not be processed. Please try again."@,
    )
}

// ---------------------------------------------------------------------------
// Asking for a link
// ---------------------------------------------------------------------------

/// How links are sent.
pub struct LinkSettings {
    pub enabled: bool,
    /// The token stands in the fragment, which no server sees.
    pub fragment: bool,
    pub self_origin: Option<String>,
    /// For how long a link is good.
    pub ttl_micros: u128,
    pub ttl_secs: u64,
}

/// What is known of a request for a link. What is absent was not done yet.
pub struct SendRequest {
    pub scope: Option<Scope>,
    pub settings: LinkSettings,
    /// The tenant is over its quota.
    pub over_quota: Option<bool>,
    pub body: SendBody,
    /// The purpose that the body names, where there is such a one.
    pub purpose: Option<String>,
    /// What ties the link to this browser.
    pub binding_secret: String,
    /// The cookie that holds it.
    pub binding_cookie: String,
    /// There were too many requests.
    pub throttled: Option<bool>,
    /// The account under the identifier; none where the lookup failed.
    pub user: Option<Option<String>>,
    /// The token of the link.
    pub token: String,
    pub short_code: String,
    /// The hash of the short code.
    pub code_hash: Option<Result<String, HashRejection>>,
    pub now_micros: i64,
    /// The link was stored.
    pub issued: Option<bool>,
    /// The message was handed over, or its absence was.
    pub delivered: bool,
}

/// What comes next for a request for a link.
#[derive(Debug, PartialEq, Eq)]
pub enum SendStep {
    /// Answer with this notice, and this cookie.
    Answer { notice: Notice, cookie: Option<String> },
    /// Charge the quota.
    ChargeQuota,
    /// Answer that the tenant is over its quota.
    OverQuota,
    /// Count the request, and see whether there were too many.
    Regulate { purpose: String, identifier: String },
    /// Look up the account.
    LookUp(String),
    /// Hash the short code.
    HashCode(String),
    /// Store the link, by the digests of its token and of what ties it to the browser.
    Issue {
        subject: String,
        purpose: String,
        token: String,
        short_code_hash: String,
        binding: String,
        recipient: String,
        expires_at_unix_micros: i64,
    },
    /// Send the message, or only go through the motions.
    Deliver {
        recipient: String,
        purpose: String,
        link: String,
        short_code: String,
        ttl_secs: u64,
        earnest: bool,
    },
}

/// The answer to a request, with the cookie.
pub open spec fn answered(step: SendStep, status: u16, cookie: Option<Seq<char>>) -> bool {
    step matches SendStep::Answer { notice, cookie: c } && acknowledges(notice, status)
        && text::opt_text(c) == cookie
}

/// Until when a link is good.
pub open spec fn expiry(now_micros: i64, ttl_micros: u128) -> int {
    clock::saturated(
        now_micros + if ttl_micros > i64::MAX {
            i64::MAX as int
        } else {
            ttl_micros as int
        },
    )
}

/// What comes next once the account was looked up: for one that is there a link is stored, tied to
/// this browser, and sent; for one that is not, nothing is. The answer is the same, also where the
/// code could not be hashed or the link could not be stored.
pub open spec fn after_user(
    q: SendRequest,
    purpose: Seq<char>,
    identifier: Seq<char>,
    user: Option<Seq<char>>,
    step: SendStep,
) -> bool {
    let done = answered(step, 200, Some(q.binding_cookie@));
    match user {
        None => if q.delivered {
            done
        } else {
            step matches SendStep::Deliver {
                recipient,
                purpose: p,
                link,
                short_code,
                ttl_secs,
                earnest,
            } && recipient@ == identifier && p@ == purpose && link@.len() == 0 && short_code@.len()
                == 0 && ttl_secs == q.settings.ttl_secs && !earnest
        },
        Some(id) => match q.code_hash {
            None => step matches SendStep::HashCode(code) && code@ == q.short_code@,
            Some(Err(_)) => done,
            Some(Ok(hash)) => match q.issued {
                None => step matches SendStep::Issue {
                    subject,
                    purpose: p,
                    token,
                    short_code_hash,
                    binding,
                    recipient,
                    expires_at_unix_micros,
                } && subject@ == id && p@ == purpose && token@ == q.token@ && short_code_hash@
                    == hash@ && binding@ == q.binding_secret@ && recipient@ == identifier && expires_at_unix_micros == expiry(
                    q.now_micros,
                    q.settings.ttl_micros,
                ),
                Some(false) => done,
                Some(true) => if q.delivered {
                    done
                } else {
                    step matches SendStep::Deliver {
                        recipient,
                        purpose: p,
                        link,
                        short_code,
                        ttl_secs,
                        earnest,
                    } && recipient@ == identifier && p@ == purpose && link@ == link_text(
                        login::given(text::opt_text(q.settings.self_origin)),
                        q.scope->0.tenant@,
                        q.scope->0.environment@,
                        q.token@,
                        q.settings.fragment,
                    ) && short_code@ == q.short_code@ && ttl_secs == q.settings.ttl_secs && earnest
                },
            },
        },
    }
}

/// What comes next for a request for a link.
pub open spec fn send_follows(q: SendRequest, step: SendStep) -> bool {
    let identifier = login::typed(text::opt_text(q.body.identifier));
    if q.scope is None || !q.settings.enabled {
        step matches SendStep::Answer { notice, cookie } && absent(notice) && cookie is None
    } else {
        match q.over_quota {
            None => step is ChargeQuota,
            Some(true) => step is OverQuota,
            Some(false) => match q.purpose {
                None => answered(step, 200, None),
                Some(purpose) => if identifier.len() == 0 {
                    answered(step, 200, Some(q.binding_cookie@))
                } else {
                    match q.throttled {
                        None => step matches SendStep::Regulate { purpose: p, identifier: i } && p@
                            == purpose@ && i@ == identifier,
                        Some(true) => answered(step, 429, Some(q.binding_cookie@)),
                        Some(false) => match q.user {
                            None => step matches SendStep::LookUp(i) && i@ == identifier,
                            Some(user) => after_user(
                                q,
                                purpose@,
                                identifier,
                                text::opt_text(user),
                                step,
                            ),
                        },
                    }
                },
            },
        }
    }
}

/// The answer to a request, with the cookie.
fn acknowledge(status: u16, cookie: &String) -> (r: SendStep)
    ensures
        answered(r, status, Some(cookie@)),
{
    let mut notice = ack_page();
    notice.status = status;
    SendStep::Answer { notice, cookie: Some(cookie.clone()) }
}

/// The step behind [`after_user`].
fn issue(
    q: &SendRequest,
    scope: &Scope,
    purpose: &String,
    identifier: String,
    user: &Option<String>,
) -> (r: SendStep)
    requires
        q.scope == Some(*scope),
    ensures
        after_user(*q, purpose@, identifier@, text::opt_text(*user), r),
{
    let id = match user {
        None => {
            if q.delivered {
                return acknowledge(200, &q.binding_cookie);
            }
            return SendStep::Deliver {
                recipient: identifier,
                purpose: purpose.clone(),
                link: String::new(),
                short_code: String::new(),
                ttl_secs: q.settings.ttl_secs,
                earnest: false,
            };
        },
        Some(id) => id,
    };
    let hash = match &q.code_hash {
        None => return SendStep::HashCode(q.short_code.clone()),
        Some(Err(_)) => return acknowledge(200, &q.binding_cookie),
        Some(Ok(hash)) => hash,
    };
    match q.issued {
        None => {
            let ttl: i64 = if q.settings.ttl_micros > 0x7fff_ffff_ffff_ffff {
                i64::MAX
            } else {
                q.settings.ttl_micros as i64
            };
            SendStep::Issue {
                subject: id.clone(),
                purpose: purpose.clone(),
                token: q.token.clone(),
                short_code_hash: hash.clone(),
                binding: q.binding_secret.clone(),
                recipient: identifier,
                expires_at_unix_micros: clock::saturating_sum(q.now_micros, ttl),
            }
        },
        Some(false) => acknowledge(200, &q.binding_cookie),
        Some(true) => {
            if q.delivered {
                return acknowledge(200, &q.binding_cookie);
            }
            SendStep::Deliver {
                recipient: identifier,
                purpose: purpose.clone(),
                link: confirm_link(
                    hints::borrowed(&q.settings.self_origin),
                    scope,
                    q.token.as_str(),
                    q.settings.fragment,
                ),
                short_code: q.short_code.clone(),
                ttl_secs: q.settings.ttl_secs,
                earnest: true,
            }
        },
    }
}

/// What comes next for a request for a link, from what is known of it.
pub fn send(q: &SendRequest) -> (r: SendStep)
    ensures
        send_follows(*q, r),
{
    let scope = match &q.scope {
        Some(scope) => scope,
        None => return SendStep::Answer { notice: interaction::invalid_link_page(), cookie: None },
    };
    if !q.settings.enabled {
        return SendStep::Answer { notice: interaction::invalid_link_page(), cookie: None };
    }
    match q.over_quota {
        None => return SendStep::ChargeQuota,
        Some(true) => return SendStep::OverQuota,
        Some(false) => {},
    }
    let purpose = match &q.purpose {
        None => return SendStep::Answer { notice: ack_page(), cookie: None },
        Some(purpose) => purpose,
    };
    let identifier: String = match &q.body.identifier {
        Some(v) => text::trimmed(v.as_str()),
        None => String::new(),
    };
    if identifier.as_str().is_empty() {
        return acknowledge(200, &q.binding_cookie);
    }
    match q.throttled {
        None => return SendStep::Regulate { purpose: purpose.clone(), identifier },
        Some(true) => return acknowledge(429, &q.binding_cookie),
        Some(false) => {},
    }
    match &q.user {
        None => SendStep::LookUp(identifier),
        Some(user) => issue(q, scope, purpose, identifier, user),
    }
}

// ---------------------------------------------------------------------------
// Opening a link
// ---------------------------------------------------------------------------

/// What a link shows. None of it consumes the link.
#[derive(Debug, PartialEq, Eq)]
pub enum ConfirmView {
    /// The scope or the feature is not there.
    Nothing(Notice),
    /// A page with a form that is sent to `action`. The token is in the form, or is put into it
    /// by a script that reads the fragment.
    Page { action: String, token: Option<String>, script_nonce: Option<String> },
}

/// What a link shows: a page, and nothing is consumed. With the token in the fragment the page
/// has a script under `nonce`, and no token.
pub fn confirm_get(scope: Option<Scope>, settings: &LinkSettings, query: ConfirmQuery, nonce: String) -> (r:
    ConfirmView)
    ensures
        match scope {
            Some(s) => if settings.enabled {
                r matches ConfirmView::Page { action, token, script_nonce } && action@
                    == login::scope_path(s.tenant@, s.environment@) + "/magic/consume"@ && (
                if settings.fragment {
                    token is None && text::opt_text(script_nonce) == Some(nonce@)
                } else {
                    text::opt_text(token) == text::opt_text(query.token) && script_nonce is None
                })
            } else {
                r matches ConfirmView::Nothing(n) && absent(n)
            },
            None => r matches ConfirmView::Nothing(n) && absent(n),
        },
{
    match scope {
        Some(s) => {
            if !settings.enabled {
                return ConfirmView::Nothing(interaction::invalid_link_page());
            }
            let mut action = login::path_of(&s);
            action.append("/magic/consume");
            if settings.fragment {
                ConfirmView::Page { action, token: None, script_nonce: Some(nonce) }
            } else {
                ConfirmView::Page { action, token: query.token, script_nonce: None }
            }
        },
        None => ConfirmView::Nothing(interaction::invalid_link_page()),
    }
}

// ---------------------------------------------------------------------------
// Consuming a link
// ---------------------------------------------------------------------------

/// A link that is stored and still good.
pub struct MagicLinkChallenge {
    pub subject: String,
    pub short_code_hash: String,
}

/// What is known of an attempt to consume a link. What is absent was not done yet; an `Err` is a
/// step that failed.
pub struct ConsumeRequest {
    pub scope: Option<Scope>,
    pub enabled: bool,
    pub over_quota: Option<bool>,
    pub headers: Headers,
    pub self_origin: Option<String>,
    /// There were too many attempts.
    pub throttled: Option<bool>,
    /// The cookie that ties the link to the browser that asked for it.
    pub binding: Option<String>,
    pub form: ConsumeForm,
    /// The link, where there is one.
    pub found: Option<Result<Option<MagicLinkChallenge>, ()>>,
    /// A verification was spent on a link that is not there.
    pub spent: bool,
    /// Whether the short code is that of the link.
    pub matched: Option<Result<bool, HashRejection>>,
    /// The subject of the link, once it was consumed; none where it was consumed before.
    pub consumed: Option<Result<Option<String>, ()>>,
    /// The subject is a user of this scope.
    pub subject_in_scope: bool,
    pub session: Option<Result<SessionCookies, EstablishSessionError>>,
    /// The present time.
    pub now_micros: i64,
}

/// What comes next for an attempt to consume a link.
#[derive(Debug, PartialEq, Eq)]
pub enum ConsumeStep {
    /// Answer with this notice.
    Answer(Notice),
    /// Charge the quota.
    ChargeQuota,
    /// Answer that the tenant is over its quota.
    OverQuota,
    /// Count the attempt, and see whether there were too many.
    Regulate,
    /// Find the link by its browser.
    FindByBinding { binding: String },
    /// Find the link by its token and its browser.
    FindByToken { token: String, binding: String },
    /// Show how to go on from the device that asked for the link.
    CrossDevice,
    /// Spend a verification on a link that is not there.
    SpendAbsent { code: String },
    /// Verify the short code.
    VerifyCode { code: String, hash: String },
    /// Answer with this rejection.
    Rejected(Reply),
    /// Consume the link.
    Consume { subject: String },
    /// Begin a session, which is recorded with this sign-in.
    Establish { subject: String, event: AuthenticationEvent },
    /// Answer with this notice, and set these cookies.
    SignedIn { notice: Notice, cookies: Vec<String> },
}

/// What the browser is told once it is signed in.
pub open spec fn signed_in(n: Notice) -> bool {
    interaction::says(
        n,
        200,
        "You are signed in"@,
        "You have been signed in. You can close this page."@,
    )
}

/// What comes next for a link that may be consumed: it is consumed, once, and a session begins,
/// which is recorded with the email at the present time and whose cookies are set. The link of an account that may no longer sign in is good for nothing.
pub open spec fn after_finding(q: ConsumeRequest, link: MagicLinkChallenge, step: ConsumeStep) -> bool {
    match q.consumed {
        None => step matches ConsumeStep::Consume { subject } && subject@ == link.subject@,
        Some(Err(_)) => step matches ConsumeStep::Answer(n) && fails(n),
        Some(Ok(None)) => step matches ConsumeStep::Answer(n) && refuses(n),
        Some(Ok(Some(subject))) => if !q.subject_in_scope {
            step matches ConsumeStep::Answer(n) && fails(n)
        } else {
            match q.session {
                None => step matches ConsumeStep::Establish { subject: s, event } && s@ == subject@
                    && event.proves(seq![AuthMethod::EmailOtp], q.now_micros),
                Some(Err(EstablishSessionError::NotAuthenticatable)) => step matches ConsumeStep::Answer(
                    n,
                ) && refuses(n),
                Some(Err(EstablishSessionError::Store)) => step matches ConsumeStep::Answer(n)
                    && fails(n),
                Some(Ok(session)) => step matches ConsumeStep::SignedIn { notice, cookies }
                    && signed_in(notice) && text::texts(cookies@) == session.values(),
            }
        },
    }
}

/// What comes next for a short code: it is good only in the browser that asked for the link.
pub open spec fn cross_device(q: ConsumeRequest, code: Seq<char>, step: ConsumeStep) -> bool {
    match q.binding {
        None => step matches ConsumeStep::Answer(n) && refuses(n),
        Some(binding) => match q.found {
            None => step matches ConsumeStep::FindByBinding { binding: b } && b@ == binding@,
            Some(Err(_)) => step matches ConsumeStep::Answer(n) && fails(n),
            Some(Ok(None)) => if q.spent {
                step matches ConsumeStep::Answer(n) && refuses(n)
            } else {
                step matches ConsumeStep::SpendAbsent { code: c } && c@ == code
            },
            Some(Ok(Some(link))) => match q.matched {
                None => step matches ConsumeStep::VerifyCode { code: c, hash } && c@ == code
                    && hash@ == link.short_code_hash@,
                Some(Err(rejection)) => step matches ConsumeStep::Rejected(reply) && reply@
                    == rejection.response(),
                Some(Ok(false)) => step matches ConsumeStep::Answer(n) && refuses(n),
                Some(Ok(true)) => after_finding(q, link, step),
            },
        },
    }
}

/// What comes next for a token: in another browser than the one that asked for the link nothing
/// is consumed.
pub open spec fn same_device(q: ConsumeRequest, token: Seq<char>, step: ConsumeStep) -> bool {
    match q.binding {
        None => step is CrossDevice,
        Some(binding) => match q.found {
            None => step matches ConsumeStep::FindByToken { token: t, binding: b } && t@ == token
                && b@ == binding@,
            Some(Err(_)) => step matches ConsumeStep::Answer(n) && fails(n),
            Some(Ok(None)) => step matches ConsumeStep::Answer(n) && refuses(n),
            Some(Ok(Some(link))) => after_finding(q, link, step),
        },
    }
}

/// What comes next for an attempt to consume a link. A short code comes before a token.
pub open spec fn consume_follows(q: ConsumeRequest, step: ConsumeStep) -> bool {
    if q.scope is None || !q.enabled {
        step matches ConsumeStep::Answer(n) && absent(n)
    } else {
        match q.over_quota {
            None => step is ChargeQuota,
            Some(true) => step is OverQuota,
            Some(false) => if !interaction::same_origin(q.headers@, text::opt_text(q.self_origin)) {
                step matches ConsumeStep::Answer(n) && interaction::says(
                    n,
                    403,
                    "Request blocked"@,
                    "This request could not be verified. Start the sign-in from the application again."@,
                )
            } else {
                match q.throttled {
                    None => step is Regulate,
                    Some(true) => step matches ConsumeStep::Answer(n) && interaction::says(
                        n,
                        429,
                        "Too many attempts"@,
                        "Too many attempts. Please wait a moment and try again."@,
                    ),
                    Some(false) => match hints::cleaned(text::opt_text(q.form.short_code)) {
                        Some(code) => cross_device(q, code, step),
                        None => match hints::cleaned(text::opt_text(q.form.token)) {
                            Some(token) => same_device(q, token, step),
                            None => step matches ConsumeStep::Answer(n) && refuses(n),
                        },
                    },
                }
            },
        }
    }
}

/// The step behind [`after_finding`].
fn finish_consume(q: &ConsumeRequest, link: &MagicLinkChallenge) -> (r: ConsumeStep)
    ensures
        after_finding(*q, *link, r),
{
    let subject = match &q.consumed {
        None => return ConsumeStep::Consume { subject: link.subject.clone() },
        Some(Err(_)) => return ConsumeStep::Answer(interaction::server_error_page()),
        Some(Ok(None)) => return ConsumeStep::Answer(invalid_page()),
        Some(Ok(Some(subject))) => subject,
    };
    if !q.subject_in_scope {
        return ConsumeStep::Answer(interaction::server_error_page());
    }
    match &q.session {
        None => ConsumeStep::Establish {
            subject: subject.clone(),
            event: AuthenticationEvent::email_otp(q.now_micros),
        },
        Some(Err(EstablishSessionError::NotAuthenticatable)) => ConsumeStep::Answer(invalid_page()),
        Some(Err(EstablishSessionError::Store)) => ConsumeStep::Answer(
            interaction::server_error_page(),
        ),
        Some(Ok(session)) => ConsumeStep::SignedIn {
            notice: Notice {
                status: 200,
                title: "You are signed in",
                message: "You have been signed in. You can close this page.",
            },
            cookies: session.header_values(),
        },
    }
}

/// The step behind [`cross_device`].
fn consume_cross_device(q: &ConsumeRequest, code: String) -> (r: ConsumeStep)
    ensures
        cross_device(*q, code@, r),
{
    let binding = match &q.binding {
        None => return ConsumeStep::Answer(invalid_page()),
        Some(binding) => binding,
    };
    let link = match &q.found {
        None => return ConsumeStep::FindByBinding { binding: binding.clone() },
        Some(Err(_)) => return ConsumeStep::Answer(interaction::server_error_page()),
        Some(Ok(None)) => {
            if q.spent {
                return ConsumeStep::Answer(invalid_page());
            }
            return ConsumeStep::SpendAbsent { code };
        },
        Some(Ok(Some(link))) => link,
    };
    match &q.matched {
        None => ConsumeStep::VerifyCode { code, hash: link.short_code_hash.clone() },
        Some(Err(rejection)) => ConsumeStep::Rejected(rejection.to_response()),
        Some(Ok(false)) => ConsumeStep::Answer(invalid_page()),
        Some(Ok(true)) => finish_consume(q, link),
    }
}

/// The step behind [`same_device`].
fn consume_same_device(q: &ConsumeRequest, token: String) -> (r: ConsumeStep)
    ensures
        same_device(*q, token@, r),
{
    let binding = match &q.binding {
        None => return ConsumeStep::CrossDevice,
        Some(binding) => binding,
    };
    match &q.found {
        None => ConsumeStep::FindByToken { token, binding: binding.clone() },
        Some(Err(_)) => ConsumeStep::Answer(interaction::server_error_page()),
        Some(Ok(None)) => ConsumeStep::Answer(invalid_page()),
        Some(Ok(Some(link))) => finish_consume(q, link),
    }
}

/// What comes next for an attempt to consume a link, from what is known of it.
pub fn consume_post(q: &ConsumeRequest) -> (r: ConsumeStep)
    ensures
        consume_follows(*q, r),
{
    if q.scope.is_none() || !q.enabled {
        return ConsumeStep::Answer(interaction::invalid_link_page());
    }
    match q.over_quota {
        None => return ConsumeStep::ChargeQuota,
        Some(true) => return ConsumeStep::OverQuota,
        Some(false) => {},
    }
    if !interaction::same_origin_ok(&q.headers, hints::borrowed(&q.self_origin)) {
        return ConsumeStep::Answer(interaction::forbidden_page());
    }
    match q.throttled {
        None => return ConsumeStep::Regulate,
        Some(true) => return ConsumeStep::Answer(
            Notice {
                status: 429,
                title: "Too many attempts",
                message: "Too many attempts. Please wait a moment and try again.",
            },
        ),
        Some(false) => {},
    }
    match hints::clean(hints::borrowed(&q.form.short_code)) {
        Some(code) => consume_cross_device(q, code),
        None => match hints::clean(hints::borrowed(&q.form.token)) {
            Some(token) => consume_same_device(q, token),
            None => ConsumeStep::Answer(invalid_page()),
        },
    }
}

// ---------------------------------------------------------------------------
// Laws
// ---------------------------------------------------------------------------

/// A link is consumed only by a form of our own site, in the browser that asked for it, with its
/// token or with a short code that was verified.
pub proof fn law_only_a_form_in_the_same_browser_consumes(q: ConsumeRequest, step: ConsumeStep)
    requires
        consume_follows(q, step),
        step is Consume || step is Establish || step is SignedIn,
    ensures
        interaction::same_origin(q.headers@, text::opt_text(q.self_origin)),
        q.binding is Some,
        q.throttled == Some(false),
        q.found matches Some(Ok(Some(_))),
        hints::cleaned(text::opt_text(q.form.short_code)) is Some ==> q.matched == Some(
            Ok::<bool, HashRejection>(true),
        ),
        hints::cleaned(text::opt_text(q.form.short_code)) is None ==> hints::cleaned(
            text::opt_text(q.form.token),
        ) is Some,
{
}

/// A link signs in once: a session begins only where this attempt consumed it.
pub proof fn law_a_session_follows_a_consumption(q: ConsumeRequest, step: ConsumeStep)
    requires
        consume_follows(q, step),
        step is Establish || step is SignedIn,
    ensures
        q.consumed matches Some(Ok(Some(_))),
        q.subject_in_scope,
{
}

/// A session that begins with a link is recorded with the email, at the time of the sign-in, and
/// the answer sets exactly the cookies of the session.
pub proof fn law_a_link_is_recorded_as_an_email(q: ConsumeRequest, step: ConsumeStep)
    requires
        consume_follows(q, step),
    ensures
        step matches ConsumeStep::Establish { subject, event } ==> event.proves(
            seq![AuthMethod::EmailOtp],
            q.now_micros,
        ) && (q.consumed matches Some(Ok(Some(s))) && s@ == subject@),
        step matches ConsumeStep::SignedIn { notice, cookies } ==> (q.session matches Some(
            Ok(session),
        ) && text::texts(cookies@) == session.values()),
{
}

/// The request is answered, one way or another.
pub open spec fn ends(step: SendStep) -> bool {
    step is Answer || step is OverQuota
}

/// Two steps show a browser the same: one notice with one cookie, or that the tenant is over its
/// quota.
pub open spec fn shown_alike(first: SendStep, second: SendStep) -> bool {
    match (first, second) {
        (
            SendStep::Answer { notice, cookie },
            SendStep::Answer { notice: n, cookie: c },
        ) => notice.status == n.status && notice.title@ == n.title@ && notice.message@ == n.message@
            && text::opt_text(cookie) == text::opt_text(c),
        (SendStep::OverQuota, SendStep::OverQuota) => true,
        _ => false,
    }
}

/// A link that would have signed in, but for an account that may not, is answered like a link that
/// was used before, and never like a fault.
pub proof fn law_a_fenced_account_looks_like_a_used_link(
    q: ConsumeRequest,
    cookies: SessionCookies,
    would: ConsumeStep,
    fenced: ConsumeStep,
    used: ConsumeStep,
)
    requires
        consume_follows((ConsumeRequest { session: Some(Ok(cookies)), ..q }), would),
        would is SignedIn,
        consume_follows(
            (ConsumeRequest {
                session: Some(Err(EstablishSessionError::NotAuthenticatable)),
                ..q
            }),
            fenced,
        ),
        consume_follows((ConsumeRequest { consumed: Some(Ok(None)), ..q }), used),
    ensures
        fenced matches ConsumeStep::Answer(n) && refuses(n),
        used matches ConsumeStep::Answer(n) && refuses(n),
{
}

/// A request for a link is answered in one way, and with the cookie, whether there is an account
/// or not, whether its code could be hashed or not, and whether the link was stored or not.
pub proof fn law_asking_for_a_link_tells_nothing(
    q: SendRequest,
    p: SendRequest,
    first: SendStep,
    second: SendStep,
)
    requires
        send_follows(q, first),
        send_follows(p, second),
        q.scope == p.scope,
        q.settings == p.settings,
        q.over_quota == p.over_quota,
        q.purpose == p.purpose,
        q.body == p.body,
        q.throttled == p.throttled,
        q.binding_cookie@ == p.binding_cookie@,
        ends(first),
        ends(second),
    ensures
        shown_alike(first, second),
{
}

/// Once the account was looked up, a request comes to an end only with the acknowledgment and the
/// cookie, whatever was found.
pub proof fn law_a_lookup_is_acknowledged(q: SendRequest, step: SendStep)
    requires
        send_follows(q, step),
        ends(step),
        q.scope is Some,
        q.settings.enabled,
        q.over_quota == Some(false),
        q.purpose is Some,
        q.throttled == Some(false),
    ensures
        answered(step, 200, Some(q.binding_cookie@)),
{
}

/// A link is stored with what ties it to the browser that asked for it.
pub proof fn law_a_link_is_tied_to_its_browser(q: SendRequest, step: SendStep)
    requires
        send_follows(q, step),
        step is Issue,
    ensures
        step->binding@ == q.binding_secret@,
        step->token@ == q.token@,
        q.user matches Some(Some(_)),
{
}

/// Nothing is sent in earnest to whom no account belongs.
pub proof fn law_a_link_is_only_sent_to_an_account(q: SendRequest, step: SendStep)
    requires
        send_follows(q, step),
        step is Deliver,
        step->earnest,
    ensures
        q.user matches Some(Some(_)),
        q.issued == Some(true),
{
}

/// A token is taken apart where it was put together: what stands before the first delimiter is the
/// prefix and the handle, and what stands behind it is the secret.
pub proof fn law_a_token_is_taken_apart(id: Seq<char>, secret: Seq<char>)
    requires
        !id.contains(MAGIC_LINK_DELIMITER),
    ensures
        text::before(token_of(id, secret), MAGIC_LINK_DELIMITER) == MAGIC_LINK_PREFIX@ + id,
        text::behind(token_of(id, secret), MAGIC_LINK_DELIMITER) == secret,
{
    reveal_strlit("ira_mlk_");
    let c = MAGIC_LINK_DELIMITER;
    let head = MAGIC_LINK_PREFIX@ + id;
    assert(!head.contains(c)) by {
        if head.contains(c) {
            let k = choose|k: int| 0 <= k < head.len() && head[k] == c;
            if k >= MAGIC_LINK_PREFIX@.len() {
                assert(id[k - MAGIC_LINK_PREFIX@.len()] == c);
            }
        }
    }
    let token = token_of(id, secret);
    assert(token =~= head + (seq![c] + secret));
    util::lemma_find_past(head, seq![c] + secret, c);
    assert(text::find(seq![c] + secret, c) == 0);
    assert(text::before(token, c) =~= head);
    assert(text::behind(token, c) =~= secret);
}

/// With the token in the fragment, what a browser sends to the server of the link does not hold
/// it: all of that stands before the number sign.
pub proof fn law_a_fragment_keeps_the_token_from_the_server(
    base: Seq<char>,
    tenant: Seq<char>,
    environment: Seq<char>,
    token: Seq<char>,
)
    requires
        !base.contains('#'),
        !tenant.contains('#'),
        !environment.contains('#'),
    ensures
        text::before(link_text(base, tenant, environment, token, true), '#') == base + confirm_path(
            tenant,
            environment,
        ),
        text::behind(link_text(base, tenant, environment, token, true), '#') == token,
{
    reveal_strlit("#");
    reveal_strlit("/t/");
    reveal_strlit("/e/");
    reveal_strlit("/magic/confirm");
    let head = base + confirm_path(tenant, environment);
    assert(!head.contains('#')) by {
        if head.contains('#') {
            let k = choose|k: int| 0 <= k < head.len() && head[k] == '#';
            let t = base.len() + 3;
            let e = t + tenant.len() + 3;
            if k < base.len() {
                assert(base[k] == '#');
            } else if t <= k < t + tenant.len() {
                assert(tenant[k - t] == '#');
            } else if e <= k < e + environment.len() {
                assert(environment[k - e] == '#');
            }
        }
    }
    let link = link_text(base, tenant, environment, token, true);
    assert(link =~= head + (seq!['#'] + token));
    util::lemma_find_past(head, seq!['#'] + token, '#');
    assert(text::find(seq!['#'] + token, '#') == 0);
    assert(text::before(link, '#') =~= head);
    assert(text::behind(link, '#') =~= token);
}

/// With the token in the query, the page behind the link reads the same token.
pub proof fn law_the_page_reads_the_token(
    base: Seq<char>,
    tenant: Seq<char>,
    environment: Seq<char>,
    token: Seq<char>,
)
    requires
        !base.contains('?'),
        !tenant.contains('?'),
        !environment.contains('?'),
    ensures
        util::query_value(
            text::behind(link_text(base, tenant, environment, token, false), '?'),
            "token"@,
        ) == Some(token),
{
    reveal_strlit("?token=");
    reveal_strlit("token");
    reveal_strlit("/t/");
    reveal_strlit("/e/");
    reveal_strlit("/magic/confirm");
    let head = base + confirm_path(tenant, environment);
    assert(!head.contains('?')) by {
        if head.contains('?') {
            let k = choose|k: int| 0 <= k < head.len() && head[k] == '?';
            let t = base.len() + 3;
            let e = t + tenant.len() + 3;
            if k < base.len() {
                assert(base[k] == '?');
            } else if t <= k < t + tenant.len() {
                assert(tenant[k - t] == '?');
            } else if e <= k < e + environment.len() {
                assert(environment[k - e] == '?');
            }
        }
    }
    let enc = util::percent_encoded(vstd::utf8::encode_utf8(token));
    let query = "token"@ + seq!['='] + enc;
    let link = link_text(base, tenant, environment, token, false);
    assert(link =~= head + (seq!['?'] + query));
    util::lemma_find_past(head, seq!['?'] + query, '?');
    assert(text::find(seq!['?'] + query, '?') == 0);
    assert(text::behind(link, '?') =~= query);
    assert(!"token"@.contains('&') && !"token"@.contains('='));
    util::law_the_only_parameter_is_read_back("token"@, token);
}

/// A message goes to the address that was typed, whether there is an account or not, and is for what
/// was asked for. One in earnest holds the link with the token and the short code, and one that is
/// not holds neither.
pub proof fn law_a_message_goes_to_the_address_that_was_typed(q: SendRequest, step: SendStep)
    requires
        send_follows(q, step),
        step is Deliver,
    ensures
        q.body.identifier matches Some(typed) && step->Deliver_recipient@ == text::trim(typed@),
        q.purpose matches Some(p) && step->Deliver_purpose@ == p@,
        step->ttl_secs == q.settings.ttl_secs,
        step->earnest <==> q.user matches Some(Some(_)),
        step->earnest ==> step->short_code@ == q.short_code@,
        !step->earnest ==> step->short_code@.len() == 0 && step->link@.len() == 0,
        step->earnest && q.settings.fragment ==> step->link@.len() > q.token@.len()
            && step->link@.skip(step->link@.len() - q.token@.len() - 1) == seq!['#'] + q.token@,
        step->earnest && !q.settings.fragment && q.settings.self_origin is None ==> (q.scope matches Some(
            scope,
        ) && (!scope.tenant@.contains('?') && !scope.environment@.contains('?')
            ==> util::query_value(text::behind(step->link@, '?'), "token"@) == Some(q.token@))),
        step->earnest && !q.settings.fragment ==> (q.settings.self_origin matches Some(origin) ==> (
        q.scope matches Some(scope) && (!origin@.contains('?') && !scope.tenant@.contains('?')
            && !scope.environment@.contains('?') ==> util::query_value(
            text::behind(step->link@, '?'),
            "token"@,
        ) == Some(q.token@)))),
{
    if step->earnest {
        let base = login::given(text::opt_text(q.settings.self_origin));
        let scope = q.scope->0;
        if q.settings.fragment {
            reveal_strlit("#");
            let head = base + confirm_path(scope.tenant@, scope.environment@);
            assert(step->link@ =~= head + seq!['#'] + q.token@);
            assert(step->link@.skip(head.len() as int) =~= seq!['#'] + q.token@);
        } else if !base.contains('?') && !scope.tenant@.contains('?')
            && !scope.environment@.contains('?') {
            law_the_page_reads_the_token(base, scope.tenant@, scope.environment@, q.token@);
        }
        assert(q.settings.self_origin is None ==> !base.contains('?'));
    }
}

/// A link leads to the page of its own scope on this service.
pub proof fn law_a_link_leads_to_its_own_scope(
    base: Seq<char>,
    tenant: Seq<char>,
    environment: Seq<char>,
    token: Seq<char>,
    fragment: bool,
)
    ensures
        (base + "/t/"@ + tenant + "/e/"@ + environment + "/magic/confirm"@).is_prefix_of(
            link_text(base, tenant, environment, token, fragment),
        ),
{
    let head = base + "/t/"@ + tenant + "/e/"@ + environment + "/magic/confirm"@;
    let link = link_text(base, tenant, environment, token, fragment);
    assert(head =~= base + confirm_path(tenant, environment));
    assert(link.subrange(0, head.len() as int) =~= head);
}

/// A request for a link goes its way: the quota, what it is for, an address, the count of requests,
/// the account, the code and the link; each step hands on what the request says.
pub proof fn law_a_request_for_a_link_goes_its_way(q: SendRequest, step: SendStep, address: Seq<char>)
    requires
        send_follows(q, step),
        q.scope is Some,
        q.settings.enabled,
    ensures
        q.over_quota is None ==> step is ChargeQuota,
        q.over_quota == Some(true) ==> step is OverQuota,
        q.over_quota == Some(false) ==> (q.purpose matches Some(purpose) ==> (
        q.body.identifier matches Some(typed) ==> (text::trim(typed@) == address && address.len()
            > 0 ==> {
            &&& q.throttled is None ==> (step matches SendStep::Regulate { purpose: p, identifier }
                && p@ == purpose@ && identifier@ == address)
            &&& q.throttled == Some(true) ==> (step matches SendStep::Answer { notice, cookie }
                && notice.status == 429)
            &&& q.throttled == Some(false) && q.user is None ==> (step matches SendStep::LookUp(i)
                && i@ == address)
            &&& q.throttled == Some(false) ==> (q.user matches Some(Some(id)) ==> {
                &&& q.code_hash is None ==> (step matches SendStep::HashCode(c) && c@
                    == q.short_code@)
                &&& (q.code_hash matches Some(Ok(hash)) ==> (q.issued is None ==> (
                step matches SendStep::Issue {
                    subject,
                    purpose: p,
                    token,
                    short_code_hash,
                    binding,
                    recipient,
                    expires_at_unix_micros,
                } && subject@ == id@ && p@ == purpose@ && token@ == q.token@ && short_code_hash@
                    == hash@ && binding@ == q.binding_secret@ && recipient@ == address && (0
                    <= q.now_micros && q.now_micros + q.settings.ttl_micros <= i64::MAX
                    ==> expires_at_unix_micros == q.now_micros + q.settings.ttl_micros))))
                &&& (q.code_hash matches Some(Ok(_)) ==> (q.issued == Some(true) && !q.delivered
                    ==> step is Deliver && step->earnest))
                &&& (q.code_hash matches Some(Ok(_)) ==> (q.issued == Some(true) && q.delivered
                    ==> (step matches SendStep::Answer { notice, cookie } && notice.status == 200
                    && text::opt_text(cookie) == Some(q.binding_cookie@))))
            })
            &&& q.throttled == Some(false) && q.user == Some(None::<String>) && !q.delivered
                ==> step is Deliver && !step->earnest
            &&& q.throttled == Some(false) && q.user == Some(None::<String>) && q.delivered ==> (
            step matches SendStep::Answer { notice, cookie } && notice.status == 200
                && text::opt_text(cookie) == Some(q.binding_cookie@))
        }))),
{
}

/// Without a scope, and while links are off, there is nothing here, neither to ask for nor to use.
pub proof fn law_while_links_are_off_there_is_nothing(
    q: SendRequest,
    asked: SendStep,
    p: ConsumeRequest,
    used: ConsumeStep,
)
    requires
        send_follows(q, asked),
        consume_follows(p, used),
    ensures
        q.scope is None || !q.settings.enabled ==> (asked matches SendStep::Answer { notice, cookie }
            && notice.status == 400 && cookie is None),
        p.scope is None || !p.enabled ==> (used matches ConsumeStep::Answer(n) && n.status == 400),
{
}

/// A link is used as it is meant: in the browser that asked for it, the token or the code finds the
/// link, the link is consumed, and the session of its subject begins, once.
pub proof fn law_a_link_signs_in(q: ConsumeRequest, step: ConsumeStep, given: Seq<char>)
    requires
        consume_follows(q, step),
        q.scope is Some,
        q.enabled,
        q.over_quota == Some(false),
        interaction::same_origin(q.headers@, text::opt_text(q.self_origin)),
        q.throttled == Some(false),
        given.len() > 0,
    ensures
        q.form.short_code is None && (q.form.token matches Some(t) && text::trim(t@) == given) ==> {
            &&& q.binding is None ==> step is CrossDevice
            &&& (q.binding matches Some(b) ==> {
                &&& q.found is None ==> (step matches ConsumeStep::FindByToken { token, binding }
                    && token@ == given && binding@ == b@)
                &&& q.found == Some(Ok::<Option<MagicLinkChallenge>, ()>(None)) ==> (
                step matches ConsumeStep::Answer(n) && n.status == 400)
                &&& (q.found matches Some(Ok(Some(link))) ==> {
                    &&& q.consumed is None ==> (step matches ConsumeStep::Consume { subject }
                        && subject@ == link.subject@)
                    &&& q.consumed == Some(Ok::<Option<String>, ()>(None)) ==> (
                    step matches ConsumeStep::Answer(n) && n.status == 400)
                    &&& (q.consumed matches Some(Ok(Some(subject))) ==> (q.subject_in_scope ==> {
                        &&& q.session is None ==> (step matches ConsumeStep::Establish {
                            subject: s,
                            event,
                        } && s@ == subject@)
                        &&& (q.session matches Some(Ok(_)) ==> step is SignedIn)
                    }))
                })
            })
        },
        q.form.short_code matches Some(c) ==> (text::trim(c@) == given ==> (match q.binding {
            None => step matches ConsumeStep::Answer(n) && n.status == 400,
            Some(b) => {
                &&& q.found is None ==> (step matches ConsumeStep::FindByBinding { binding }
                    && binding@ == b@)
                &&& q.found == Some(Ok::<Option<MagicLinkChallenge>, ()>(None)) && !q.spent ==> (
                step matches ConsumeStep::SpendAbsent { code } && code@ == given)
                &&& (q.found matches Some(Ok(Some(link))) ==> {
                    &&& q.matched is None ==> (step matches ConsumeStep::VerifyCode { code, hash }
                        && code@ == given && hash@ == link.short_code_hash@)
                    &&& q.matched == Some(Ok::<bool, HashRejection>(false)) ==> (
                    step matches ConsumeStep::Answer(n) && n.status == 400)
                    &&& q.matched == Some(Ok::<bool, HashRejection>(true)) && q.consumed is None ==> (
                    step matches ConsumeStep::Consume { subject } && subject@ == link.subject@)
                    &&& (q.matched == Some(Ok::<bool, HashRejection>(true)) && q.subject_in_scope
                        && q.session is None ==> (q.consumed matches Some(Ok(Some(subject))) ==> (
                    step matches ConsumeStep::Establish { subject: s, event } && s@ == subject@)))
                })
            },
        })),
{
}

/// The texts that a browser is shown say what happened.
pub proof fn law_notices_say_what_happened(n: Notice)
    ensures
        refuses(n) ==> n.status == 400 && n.title@ == "Link no longer valid"@,
        acknowledges(n, 200) ==> n.status == 200 && n.title@ == "Check your email"@,
        signed_in(n) ==> n.status == 200 && n.title@ == "You are signed in"@,
        fails(n) ==> n.status == 500 && n.title@ == "Something went wrong"@,
{
}

/// A token is the prefix, the handle, a tilde and the secret, one behind the other.
pub proof fn law_a_token_is_put_together(id: Seq<char>, secret: Seq<u8>)
    ensures
        token_text(id, secret) == "ira_mlk_"@ + id + seq!['~']
            + token_credential::base64url_encoded(secret),
{
    assert(token_text(id, secret) =~= "ira_mlk_"@ + id + seq!['~']
        + token_credential::base64url_encoded(secret));
}

/// Where links are off, the notice is that of a link that is not there; where too many tried, and
/// where the form came from another site, that is said.
pub proof fn law_a_blocked_attempt_is_told_why(q: ConsumeRequest, step: ConsumeStep)
    requires
        consume_follows(q, step),
    ensures
        q.scope is None || !q.enabled ==> (step matches ConsumeStep::Answer(n) && n.status == 400
            && n.title@ == "Link no longer valid"@ && n.message@
            == "This sign-in link is missing or invalid. Start the sign-in from the application again."@),
        q.scope is Some && q.enabled && q.over_quota == Some(false) && !interaction::same_origin(
            q.headers@,
            text::opt_text(q.self_origin),
        ) ==> (step matches ConsumeStep::Answer(n) && n.status == 403 && n.title@ == "Request blocked"@),
        q.scope is Some && q.enabled && q.over_quota == Some(false) && interaction::same_origin(
            q.headers@,
            text::opt_text(q.self_origin),
        ) && q.throttled == Some(true) ==> (step matches ConsumeStep::Answer(n) && n.status == 429
            && n.title@ == "Too many attempts"@),
{
}

} // verus!
