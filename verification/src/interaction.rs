//! The interaction that stands between an authorization request and its answer: where it returns
//! to, whether a form came from its own pages, and how a session begins.

use vstd::prelude::*;

use crate::authn;
use crate::authn::AuthenticationEvent;
use crate::clock;
use crate::global_revocation;
use crate::global_revocation::{SessionLifecycleEvent, SessionSignalCause};
use crate::headers::Headers;
use crate::hints;
use crate::hints::InteractionHints;
use crate::reply;
use crate::reply::Reply;
use crate::text;
use crate::util;

verus! {

// ---------------------------------------------------------------------------
// Where an interaction returns to
// ---------------------------------------------------------------------------

/// What an interaction returns to begins with this. The single slash matters: two of them would
/// name another host.
pub const RESUME_PREFIX: &'static str = "/authorize?";

/// The login page.
pub const LOGIN_PATH: &'static str = "/login";

/// The registration page.
pub const REGISTER_PATH: &'static str = "/register";

/// The consent page.
pub const CONSENT_PATH: &'static str = "/consent";

/// The page that asks for a second factor.
pub const MFA_CHALLENGE_PATH: &'static str = "/login/mfa";

/// A validated place to return to, and what was recovered from it. The client identifier is yet
/// to be parsed.
#[derive(Debug, PartialEq, Eq)]
pub struct ResumeTarget {
    /// The local path.
    pub return_to: String,
    /// The client of the authorization request.
    pub client_id: String,
    /// The requested scope, where there is one.
    pub oauth_scope: Option<String>,
    /// The hints of the request.
    pub hints: InteractionHints,
}

/// The model of a [`ResumeTarget`].
pub struct ResumeView {
    pub return_to: Seq<char>,
    pub client_id: Seq<char>,
    pub oauth_scope: Option<Seq<char>>,
    pub hints: hints::HintsView,
}

impl View for ResumeTarget {
    type V = ResumeView;

    open spec fn view(&self) -> ResumeView {
        ResumeView {
            return_to: self.return_to@,
            client_id: self.client_id@,
            oauth_scope: text::opt_text(self.oauth_scope),
            hints: self.hints@,
        }
    }
}

/// A visible ASCII character.
pub open spec fn visible(c: char) -> bool {
    0x21 <= c as u32 <= 0x7E
}

/// Every character is a visible ASCII character.
pub open spec fn all_visible(s: Seq<char>) -> bool {
    forall|i: int| 0 <= i < s.len() ==> visible(#[trigger] s[i])
}

/// An optional text, where it is not empty.
pub open spec fn nonempty(o: Option<Seq<char>>) -> Option<Seq<char>> {
    match o {
        Some(s) => if s.len() == 0 {
            None
        } else {
            Some(s)
        },
        None => None,
    }
}

/// The place to return to that a raw value stands for, where it is a local authorization path
/// that names a client.
pub open spec fn resume_of(raw: Option<Seq<char>>) -> Option<ResumeView> {
    match raw {
        None => None,
        Some(value) => {
            let target = text::trim(value);
            let query = target.skip(RESUME_PREFIX@.len() as int);
            if !all_visible(target) || !RESUME_PREFIX@.is_prefix_of(target) {
                None
            } else {
                match util::query_value(query, "client_id"@) {
                    None => None,
                    Some(client) => Some(
                        ResumeView {
                            return_to: target,
                            client_id: client,
                            oauth_scope: nonempty(util::query_value(query, "scope"@)),
                            hints: hints::hints_in(query),
                        },
                    ),
                }
            }
        },
    }
}

/// Whether every character is a visible ASCII character.
fn is_all_visible(s: &str) -> (r: bool)
    ensures
        r == all_visible(s@),
{
    let v: Vec<char> = text::chars_of(s);
    let mut i: usize = 0;
    while i < v.len()
        invariant
            v@ == s@,
            i <= v@.len(),
            forall|k: int| 0 <= k < i ==> visible(#[trigger] s@[k]),
        decreases v@.len() - i,
    {
        let n: u32 = v[i] as u32;
        if n < 0x21 || n > 0x7E {
            assert(!visible(s@[i as int]));
            return false;
        }
        i = i + 1;
    }
    true
}

/// Parses what an interaction returns to. Nothing comes of a value that is not a local
/// authorization path, that holds anything but visible ASCII, or that names no client.
pub fn parse_resume(raw: Option<&str>) -> (r: Option<ResumeTarget>)
    ensures
        match r {
            Some(t) => resume_of(text::opt_str(raw)) == Some(t@),
            None => resume_of(text::opt_str(raw)) is None,
        },
{
    let value = match raw {
        Some(value) => value,
        None => return None,
    };
    let return_to: String = text::trimmed(value);
    if !is_all_visible(return_to.as_str()) {
        return None;
    }
    if !text::has_prefix(return_to.as_str(), RESUME_PREFIX) {
        return None;
    }
    let v: Vec<char> = text::chars_of(return_to.as_str());
    let p: Vec<char> = text::chars_of(RESUME_PREFIX);
    assert(v@.subrange(p@.len() as int, v@.len() as int) =~= v@.skip(p@.len() as int));
    let query: String = text::string_of_range(&v, p.len(), v.len());
    let client_id: String = match util::query_get(query.as_str(), "client_id") {
        Some(client_id) => client_id,
        None => return None,
    };
    let oauth_scope: Option<String> = match util::query_get(query.as_str(), "scope") {
        Some(scope) => if scope.as_str().is_empty() {
            None
        } else {
            Some(scope)
        },
        None => None,
    };
    let hints: InteractionHints = InteractionHints::from_query(query.as_str());
    Some(ResumeTarget { return_to, client_id, oauth_scope, hints })
}

// ---------------------------------------------------------------------------
// Origins
// ---------------------------------------------------------------------------

/// The fetch-metadata header.
pub const SEC_FETCH_SITE: &'static str = "sec-fetch-site";

/// The origin header.
pub const ORIGIN: &'static str = "origin";

/// How a browser writes an origin that it must not disclose. It is no evidence of anything.
pub const OPAQUE_ORIGIN: &'static str = "null";

/// How many characters stand before the path, the query and the fragment.
pub open spec fn authority_end(s: Seq<char>) -> nat
    decreases s.len(),
{
    if s.len() == 0 || s[0] == '/' || s[0] == '?' || s[0] == '#' {
        0
    } else {
        1 + authority_end(s.skip(1))
    }
}

/// `s` ends with `suffix`.
pub open spec fn ends_with(s: Seq<char>, suffix: Seq<char>) -> bool {
    text::occurs_at(s, suffix, s.len() - suffix.len())
}

/// A host without the port that its scheme has by default.
pub open spec fn without_default_port(scheme: Seq<char>, host: Seq<char>) -> Seq<char> {
    if scheme == "https"@ && ends_with(host, ":443"@) {
        host.take(host.len() - ":443"@.len())
    } else if scheme == "http"@ && ends_with(host, ":80"@) {
        host.take(host.len() - ":80"@.len())
    } else {
        host
    }
}

/// The canonical origin of a URL: its scheme and its host in lower case, without the default port.
pub open spec fn origin(url: Seq<char>) -> Option<Seq<char>> {
    let t = text::lower(url);
    let scheme = text::before(t, ':');
    let rest = text::behind(t, ':');
    let authority = rest.skip(2).take(authority_end(rest.skip(2)) as int);
    if scheme.len() == 0 || !"//"@.is_prefix_of(rest) || authority.len() == 0 {
        None
    } else {
        Some(scheme + "://"@ + without_default_port(scheme, authority))
    }
}

/// What an origin is compared as: the canonical one, or the text itself where it has none.
pub open spec fn comparable(url: Seq<char>) -> Seq<char> {
    match origin(url) {
        Some(o) => o,
        None => url,
    }
}

/// Whether `v` ends with `suffix`.
fn has_suffix(v: &Vec<char>, suffix: &str) -> (r: bool)
    ensures
        r == ends_with(v@, suffix@),
{
    let s: Vec<char> = text::chars_of(suffix);
    if v.len() < s.len() {
        return false;
    }
    text::matches_at(v, &s, v.len() - s.len())
}

/// The canonical origin of a URL, where it has one.
pub fn origin_of(url: &str) -> (r: Option<String>)
    ensures
        text::opt_text(r) == origin(url@),
{
    let t: String = text::to_lower(url);
    let (scheme, rest) = text::sides(t.as_str(), ':');
    if scheme.as_str().is_empty() || !text::has_prefix(rest.as_str(), "//") {
        return None;
    }
    proof {
        reveal_strlit("//");
        reveal_strlit(":443");
        reveal_strlit(":80");
    }
    let v: Vec<char> = text::chars_of(rest.as_str());
    let n: usize = v.len();
    assert(n >= 2);
    let ghost tail = v@.skip(2);
    let mut end: usize = 2;
    while end < n && v[end] != '/' && v[end] != '?' && v[end] != '#'
        invariant
            n == v@.len(),
            2 <= end <= n,
            tail == v@.skip(2),
            authority_end(tail) == (end - 2) + authority_end(v@.skip(end as int)),
        decreases n - end,
    {
        assert(v@.skip(end as int).skip(1) =~= v@.skip(end + 1));
        end = end + 1;
    }
    let ghost authority = tail.take(authority_end(tail) as int);
    let host: String = text::string_of_range(&v, 2, end);
    assert(host@ =~= authority);
    if end == 2 {
        return None;
    }
    let h: Vec<char> = text::chars_of(host.as_str());
    let keep: usize = if text::same(scheme.as_str(), "https") && has_suffix(&h, ":443") {
        h.len() - 4
    } else if text::same(scheme.as_str(), "http") && has_suffix(&h, ":80") {
        h.len() - 3
    } else {
        h.len()
    };
    let bare: String = text::string_of_range(&h, 0, keep);
    assert(bare@ =~= without_default_port(scheme@, authority));
    let mut r: String = scheme;
    r.append("://");
    r.append(bare.as_str());
    Some(r)
}

/// What an origin is compared as.
fn comparable_origin(url: &str) -> (r: String)
    ensures
        r@ == comparable(url@),
{
    match origin_of(url) {
        Some(o) => o,
        None => url.to_owned(),
    }
}

/// The value of a header, where it has one.
pub open spec fn header_of(headers: Map<Seq<char>, Seq<char>>, name: Seq<char>) -> Option<Seq<char>> {
    if headers.contains_key(name) {
        Some(headers[name])
    } else {
        None
    }
}

/// The fetch metadata says that the request came from this kind of site.
pub open spec fn site_is(headers: Map<Seq<char>, Seq<char>>, site: Seq<char>) -> bool {
    match header_of(headers, SEC_FETCH_SITE@) {
        Some(s) => text::lower(s) == site,
        None => false,
    }
}

/// The origin is one that the browser did not disclose.
pub open spec fn opaque_origin(o: Seq<char>) -> bool {
    text::lower(text::trim(o)) == OPAQUE_ORIGIN@
}

/// The request is not known to come from elsewhere. Fetch metadata that says so is believed; an
/// origin that is disclosed must be the own one; and one that is not disclosed is accepted only
/// where the fetch metadata says that it is the own one.
pub open spec fn same_origin(headers: Map<Seq<char>, Seq<char>>, expected: Option<Seq<char>>) -> bool {
    if site_is(headers, "cross-site"@) {
        false
    } else {
        match header_of(headers, ORIGIN@) {
            None => true,
            Some(o) => if opaque_origin(o) {
                site_is(headers, "same-origin"@)
            } else {
                match expected {
                    Some(e) => comparable(o) == comparable(e),
                    None => true,
                }
            },
        }
    }
}

/// Whether the fetch metadata says that the request came from this kind of site.
fn fetch_site_is(headers: &Headers, site: &str) -> (r: bool)
    ensures
        r == site_is(headers@, site@),
{
    match headers.get(SEC_FETCH_SITE) {
        Some(s) => {
            let l: String = text::to_lower(s.as_str());
            text::same(l.as_str(), site)
        },
        None => false,
    }
}

/// Whether an origin is one that the browser did not disclose.
fn is_opaque_origin(o: &str) -> (r: bool)
    ensures
        r == opaque_origin(o@),
{
    let t: String = text::trimmed(o);
    let l: String = text::to_lower(t.as_str());
    text::same(l.as_str(), OPAQUE_ORIGIN)
}

/// Whether a form may have come from the own pages: the check that stands before every change of
/// state. It rejects on evidence, and leaves the rest to the cookie.
pub fn same_origin_ok(headers: &Headers, expected_origin: Option<&str>) -> (r: bool)
    ensures
        r == same_origin(headers@, text::opt_str(expected_origin)),
{
    if fetch_site_is(headers, "cross-site") {
        return false;
    }
    match headers.get(ORIGIN) {
        None => true,
        Some(o) => {
            if is_opaque_origin(o.as_str()) {
                return fetch_site_is(headers, "same-origin");
            }
            match expected_origin {
                Some(e) => {
                    let a: String = comparable_origin(o.as_str());
                    let b: String = comparable_origin(e);
                    text::same(a.as_str(), b.as_str())
                },
                None => true,
            }
        },
    }
}

/// One of the origins is this one.
pub open spec fn listed(allowed: Seq<Seq<char>>, o: Seq<char>) -> bool {
    exists|i: int| 0 <= i < allowed.len() && comparable(#[trigger] allowed[i]) == comparable(o)
}

/// A passkey ceremony comes from a listed origin, or from the own one.
pub open spec fn related_origin(headers: Map<Seq<char>, Seq<char>>, allowed: Seq<Seq<char>>) -> bool {
    match header_of(headers, ORIGIN@) {
        Some(o) => if opaque_origin(o) {
            site_is(headers, "same-origin"@)
        } else {
            listed(allowed, text::trim(o))
        },
        None => site_is(headers, "same-origin"@),
    }
}

/// Whether a passkey ceremony may run: from an origin that the operator lists, however the fetch
/// metadata calls it, or from the own one. A request that says nothing is refused.
pub fn related_origin_ok(headers: &Headers, allowed_origins: &[String]) -> (r: bool)
    ensures
        r == related_origin(headers@, text::texts(allowed_origins@)),
{
    match headers.get(ORIGIN) {
        Some(o) => {
            if is_opaque_origin(o.as_str()) {
                return fetch_site_is(headers, "same-origin");
            }
            let t: String = text::trimmed(o.as_str());
            let mine: String = comparable_origin(t.as_str());
            let ghost allowed = text::texts(allowed_origins@);
            let mut i: usize = 0;
            while i < allowed_origins.len()
                invariant
                    i <= allowed_origins@.len(),
                    allowed == text::texts(allowed_origins@),
                    mine@ == comparable(t@),
                    t@ == text::trim(o@),
                    header_of(headers@, ORIGIN@) == Some(o@),
                    !opaque_origin(o@),
                    forall|k: int|
                        0 <= k < i ==> comparable(#[trigger] allowed[k]) != comparable(t@),
                decreases allowed_origins@.len() - i,
            {
                let other: String = comparable_origin(allowed_origins[i].as_str());
                if text::same(other.as_str(), mine.as_str()) {
                    assert(comparable(allowed[i as int]) == comparable(t@));
                    return true;
                }
                i = i + 1;
            }
            false
        },
        None => fetch_site_is(headers, "same-origin"),
    }
}

// ---------------------------------------------------------------------------
// Sessions
// ---------------------------------------------------------------------------

/// The idle window in microseconds, as far as an `i64` holds it.
pub fn idle_ttl_micros(micros: u128) -> (r: i64)
    ensures
        r == clock::saturated(micros as int),
{
    if micros > i64::MAX as u128 {
        i64::MAX
    } else {
        micros as i64
    }
}

/// A bound value is the presented one. What is not there matches nothing.
pub open spec fn bound_matches(stored: Option<Seq<char>>, presented: Option<Seq<char>>) -> bool {
    stored is Some && stored == presented
}

/// Whether a value bound to a session is the presented one. One that is missing on either side is
/// not, so that a binding cannot be left out.
pub fn bound_value_matches(stored: Option<&str>, presented: Option<&str>) -> (r: bool)
    ensures
        r == bound_matches(text::opt_str(stored), text::opt_str(presented)),
{
    match (stored, presented) {
        (Some(s), Some(p)) => text::same(s, p),
        _ => false,
    }
}

/// Which of the bindings an operator turned on.
#[derive(Debug, Clone, Copy, PartialEq, Eq)]
pub struct BindingKnobs {
    /// To the device.
    pub device: bool,
    /// To the address.
    pub peer_ip: bool,
}

/// What a session is bound to. What is not turned on is neither recorded nor compared.
#[derive(Debug, PartialEq, Eq)]
pub struct SessionBinding {
    pub user_agent: Option<String>,
    pub peer_ip: Option<String>,
}

/// An optional text, where it is asked for.
pub open spec fn gated(on: bool, o: Option<Seq<char>>) -> Option<Seq<char>> {
    if on {
        o
    } else {
        None
    }
}

/// An optional text, where it is asked for.
fn gate(on: bool, o: Option<&str>) -> (r: Option<String>)
    ensures
        text::opt_text(r) == gated(on, text::opt_str(o)),
{
    if on {
        match o {
            Some(s) => Some(s.to_owned()),
            None => None,
        }
    } else {
        None
    }
}

/// What of a request a session is bound to.
pub fn session_binding(knobs: BindingKnobs, user_agent: Option<&str>, peer_ip: Option<&str>) -> (r:
    SessionBinding)
    ensures
        text::opt_text(r.user_agent) == gated(knobs.device, text::opt_str(user_agent)),
        text::opt_text(r.peer_ip) == gated(knobs.peer_ip, text::opt_str(peer_ip)),
{
    SessionBinding { user_agent: gate(knobs.device, user_agent), peer_ip: gate(knobs.peer_ip, peer_ip) }
}

/// The record of a live session.
#[derive(Debug, PartialEq, Eq)]
pub struct SessionRecord {
    pub subject: String,
    pub auth_time_unix_micros: i64,
    pub auth_methods: String,
    pub user_agent: Option<String>,
    pub peer_ip: Option<String>,
}

/// An authenticated session: its subject, and when and how the subject authenticated.
#[derive(Debug, PartialEq, Eq)]
pub struct AuthenticatedSession {
    pub session_id: String,
    pub subject: String,
    pub auth_time_unix_micros: i64,
    pub auth_methods: String,
}

/// The bindings that are turned on hold between a record and a request.
pub open spec fn bindings_hold(
    knobs: BindingKnobs,
    record: SessionRecord,
    user_agent: Option<Seq<char>>,
    peer_ip: Option<Seq<char>>,
) -> bool {
    &&& knobs.peer_ip ==> bound_matches(text::opt_text(record.peer_ip), peer_ip)
    &&& knobs.device ==> bound_matches(text::opt_text(record.user_agent), user_agent)
}

/// The session of a request, from what the store has under its cookie. `record` is absent where
/// there is no cookie, where it names no live session of this scope, and where the store failed:
/// all of these are unauthenticated. So is a request that a binding does not admit.
pub fn resolve_session(
    session_id: &str,
    record: Option<SessionRecord>,
    knobs: BindingKnobs,
    user_agent: Option<&str>,
    peer_ip: Option<&str>,
) -> (r: Option<AuthenticatedSession>)
    ensures
        match record {
            None => r is None,
            Some(rec) => if bindings_hold(
                knobs,
                rec,
                text::opt_str(user_agent),
                text::opt_str(peer_ip),
            ) {
                r matches Some(s) && s.session_id@ == session_id@ && s.subject == rec.subject
                    && s.auth_time_unix_micros == rec.auth_time_unix_micros && s.auth_methods
                    == rec.auth_methods
            } else {
                r is None
            },
        },
{
    let rec = match record {
        Some(rec) => rec,
        None => return None,
    };
    if knobs.peer_ip && !bound_value_matches(hints::borrowed(&rec.peer_ip), peer_ip) {
        return None;
    }
    if knobs.device && !bound_value_matches(hints::borrowed(&rec.user_agent), user_agent) {
        return None;
    }
    Some(
        AuthenticatedSession {
            session_id: session_id.to_owned(),
            subject: rec.subject,
            auth_time_unix_micros: rec.auth_time_unix_micros,
            auth_methods: rec.auth_methods,
        },
    )
}

/// Why no session was begun. The two are told apart so that a fenced account is answered like a
/// failed sign-in, and never like a fault.
#[derive(Debug, Clone, Copy, PartialEq, Eq, Structural)]
pub enum EstablishSessionError {
    /// The state of the account forbids it, or there is no such account.
    NotAuthenticatable,
    /// The store failed.
    Store,
}

/// What the store has of an account.
#[derive(Debug, Clone, Copy, PartialEq, Eq, Structural)]
pub enum AccountState {
    /// A state in which it may authenticate.
    Authenticatable,
    /// A state in which it may not.
    Fenced,
    /// No such account.
    Absent,
    /// The store failed.
    Fault,
}

/// The fence that every way of beginning a session goes through.
pub fn lifecycle_fence(state: AccountState) -> (r: Result<(), EstablishSessionError>)
    ensures
        r == (match state {
            AccountState::Authenticatable => Ok::<(), EstablishSessionError>(()),
            AccountState::Fenced => Err(EstablishSessionError::NotAuthenticatable),
            AccountState::Absent => Err(EstablishSessionError::NotAuthenticatable),
            AccountState::Fault => Err(EstablishSessionError::Store),
        }),
{
    match state {
        AccountState::Authenticatable => Ok(()),
        AccountState::Fenced => Err(EstablishSessionError::NotAuthenticatable),
        AccountState::Absent => Err(EstablishSessionError::NotAuthenticatable),
        AccountState::Fault => Err(EstablishSessionError::Store),
    }
}

/// What is written for a new session.
#[derive(Debug, PartialEq, Eq)]
pub struct NewSession {
    pub subject: String,
    pub auth_methods: String,
    pub auth_time_micros: i64,
    pub idle_expires_micros: i64,
    pub absolute_expires_micros: i64,
    pub user_agent: Option<String>,
    pub peer_ip: Option<String>,
}

/// What is to be done to begin a session.
#[derive(Debug, PartialEq, Eq)]
pub struct Rotation {
    /// The session that the browser holds, which ends with this.
    pub prior: Option<String>,
    /// The session that begins.
    pub session: NewSession,
}

/// The first half of beginning a session: past the fence, the session that the browser holds is
/// rotated away in the same step in which the new one is written. The session is recorded with the
/// methods and the time of the sign-in.
pub fn establish_session(
    state: AccountState,
    now: i128,
    idle_ttl_secs: u64,
    session_ttl_secs: u64,
    subject: &str,
    event: &AuthenticationEvent,
    prior: Option<&str>,
    knobs: BindingKnobs,
    user_agent: Option<&str>,
    peer_ip: Option<&str>,
) -> (r: Result<Rotation, EstablishSessionError>)
    requires
        now <= clock::LAST_MOMENT,
    ensures
        match state {
            AccountState::Authenticatable => {
                &&& r is Ok
                &&& text::opt_text(r->Ok_0.prior) == text::opt_str(prior)
                &&& r->Ok_0.session.subject@ == subject@
                &&& r->Ok_0.session.auth_methods@ == authn::written(event.methods@)
                &&& r->Ok_0.session.auth_time_micros == event.auth_time_unix_micros
                &&& r->Ok_0.session.idle_expires_micros == clock::micros_of(
                    clock::later(now, idle_ttl_secs) as i128,
                )
                &&& r->Ok_0.session.absolute_expires_micros == clock::micros_of(
                    clock::later(now, session_ttl_secs) as i128,
                )
                &&& text::opt_text(r->Ok_0.session.user_agent) == gated(
                    knobs.device,
                    text::opt_str(user_agent),
                )
                &&& text::opt_text(r->Ok_0.session.peer_ip) == gated(
                    knobs.peer_ip,
                    text::opt_str(peer_ip),
                )
            },
            AccountState::Fault => r == Err::<Rotation, EstablishSessionError>(
                EstablishSessionError::Store,
            ),
            _ => r == Err::<Rotation, EstablishSessionError>(
                EstablishSessionError::NotAuthenticatable,
            ),
        },
{
    match lifecycle_fence(state) {
        Ok(_) => {},
        Err(e) => return Err(e),
    }
    let idle_expires_micros: i64 = clock::epoch_micros(clock::moment_after(now, idle_ttl_secs));
    let absolute_expires_micros: i64 = clock::epoch_micros(
        clock::moment_after(now, session_ttl_secs),
    );
    let binding = session_binding(knobs, user_agent, peer_ip);
    Ok(
        Rotation {
            prior: match prior {
                Some(p) => Some(p.to_owned()),
                None => None,
            },
            session: NewSession {
                subject: subject.to_owned(),
                auth_methods: event.methods_token(),
                auth_time_micros: event.auth_time_unix_micros,
                idle_expires_micros,
                absolute_expires_micros,
                user_agent: binding.user_agent,
                peer_ip: binding.peer_ip,
            },
        },
    )
}

/// What the store did with the session that the browser held.
#[derive(Debug, Clone, Copy, PartialEq, Eq, Structural)]
pub enum PriorSessionOutcome {
    /// There was none.
    Nothing,
    /// It lives on under the new identifier: the same subject authenticated again.
    Carried,
    /// It was another subject's, and was revoked with everything that hangs on it.
    RevokedForeignSubject,
}

/// What is published of the session that the browser held: a rotation names its successor, and a
/// session of another subject has none.
pub open spec fn transition(
    tenant: Seq<char>,
    environment: Seq<char>,
    prior: Option<Seq<char>>,
    session_id: Seq<char>,
    outcome: PriorSessionOutcome,
) -> Option<global_revocation::SignalView> {
    match (prior, outcome) {
        (Some(p), PriorSessionOutcome::Carried) => Some(
            global_revocation::SignalView {
                tenant,
                environment,
                session_id: p,
                cause: SessionSignalCause::Rotated,
                successor: Some(session_id),
            },
        ),
        (Some(p), PriorSessionOutcome::RevokedForeignSubject) => Some(
            global_revocation::SignalView {
                tenant,
                environment,
                session_id: p,
                cause: SessionSignalCause::ReplacedByOtherSubject,
                successor: None,
            },
        ),
        _ => None,
    }
}

/// The second half of beginning a session: what is published of the one that the browser held.
pub fn transition_signal(
    tenant: &str,
    environment: &str,
    prior: Option<&str>,
    session_id: &str,
    outcome: PriorSessionOutcome,
) -> (r: Option<SessionLifecycleEvent>)
    ensures
        match r {
            Some(event) => transition(
                tenant@,
                environment@,
                text::opt_str(prior),
                session_id@,
                outcome,
            ) == Some(event@),
            None => transition(
                tenant@,
                environment@,
                text::opt_str(prior),
                session_id@,
                outcome,
            ) is None,
        },
{
    match (prior, outcome) {
        (Some(p), PriorSessionOutcome::Carried) => Some(
            SessionLifecycleEvent {
                tenant: tenant.to_owned(),
                environment: environment.to_owned(),
                session_id: p.to_owned(),
                cause: SessionSignalCause::Rotated,
                successor_session_id: Some(session_id.to_owned()),
            },
        ),
        (Some(p), PriorSessionOutcome::RevokedForeignSubject) => Some(
            SessionLifecycleEvent {
                tenant: tenant.to_owned(),
                environment: environment.to_owned(),
                session_id: p.to_owned(),
                cause: SessionSignalCause::ReplacedByOtherSubject,
                successor_session_id: None,
            },
        ),
        _ => None,
    }
}

/// The cookies that begin a session: that of the session, and that of the browser state where
/// session management is on.
#[derive(Debug, Clone, PartialEq, Eq)]
pub struct SessionCookies {
    pub session_id: String,
    pub session: String,
    pub op_browser_state: Option<String>,
}

impl SessionCookies {
    /// The cookies, in the order in which they are set.
    pub open spec fn values(&self) -> Seq<Seq<char>> {
        match self.op_browser_state {
            Some(state) => seq![self.session@, state@],
            None => seq![self.session@],
        }
    }

    /// The cookies, in the order in which they are set.
    pub fn header_values(&self) -> (r: Vec<String>)
        ensures
            text::texts(r@) == self.values(),
    {
        let mut r: Vec<String> = Vec::new();
        text::push_text(&mut r, self.session.as_str());
        match &self.op_browser_state {
            Some(state) => text::push_text(&mut r, state.as_str()),
            None => {},
        }
        assert(text::texts(r@) =~= self.values());
        r
    }

    /// The session that began.
    pub fn session_id(&self) -> (r: &str)
        ensures
            r@ == self.session_id@,
    {
        self.session_id.as_str()
    }
}

/// What the cookies of a new session are made from.
#[derive(Debug, PartialEq, Eq)]
pub struct CookiePlan {
    pub session_id: String,
    /// How long the cookies last: as long as a session may.
    pub ttl_secs: u64,
    /// The cookie of the session is partitioned by the site that it is sent from.
    pub partitioned: bool,
    /// The issuer with which the session makes the browser state, where that is published.
    pub browser_state_issuer: Option<String>,
}

impl CookiePlan {
    /// The plan for this session. The browser state is published under session management only.
    pub open spec fn is_for(
        &self,
        session_id: Seq<char>,
        ttl_secs: u64,
        partitioned: bool,
        management: bool,
        issuer: Seq<char>,
    ) -> bool {
        &&& self.session_id@ == session_id
        &&& self.ttl_secs == ttl_secs
        &&& self.partitioned == partitioned
        &&& text::opt_text(self.browser_state_issuer) == gated(management, Some(issuer))
    }
}

/// What the cookies of the session that began are made from. `management` says whether session
/// management is on.
pub fn plan_cookies(
    session_id: &str,
    session_ttl_secs: u64,
    partitioned: bool,
    management: bool,
    issuer: &str,
) -> (r: CookiePlan)
    ensures
        r.is_for(session_id@, session_ttl_secs, partitioned, management, issuer@),
{
    CookiePlan {
        session_id: session_id.to_owned(),
        ttl_secs: session_ttl_secs,
        partitioned,
        browser_state_issuer: if management {
            Some(issuer.to_owned())
        } else {
            None
        },
    }
}

/// These are the cookies that were made after the plan: that of the session, and that of the
/// browser state where it is published.
pub open spec fn made_after(
    plan: CookiePlan,
    session: Seq<char>,
    op_browser_state: Seq<char>,
    cookies: SessionCookies,
) -> bool {
    &&& cookies.session_id@ == plan.session_id@
    &&& cookies.session@ == session
    &&& text::opt_text(cookies.op_browser_state) == gated(
        plan.browser_state_issuer is Some,
        Some(op_browser_state),
    )
}

/// The last part of beginning a session: the cookies that were made after the plan. Where the
/// browser state is not published, `op_browser_state` is dropped.
pub fn session_cookies(plan: CookiePlan, session: String, op_browser_state: String) -> (r:
    SessionCookies)
    ensures
        made_after(plan, session@, op_browser_state@, r),
{
    SessionCookies {
        session_id: plan.session_id,
        session,
        op_browser_state: match plan.browser_state_issuer {
            Some(_) => Some(op_browser_state),
            None => None,
        },
    }
}

// ---------------------------------------------------------------------------
// Redirects
// ---------------------------------------------------------------------------

/// The page at `path`, to return to `return_to` from.
pub open spec fn page_url(path: Seq<char>, return_to: Seq<char>) -> Seq<char> {
    util::with_parameter(path, "return_to"@, return_to)
}

/// The URL of an interaction page.
pub fn interaction_url(path: &str, return_to: &str) -> (r: String)
    ensures
        r@ == page_url(path@, return_to@),
{
    util::append_query(path, "return_to", Some(return_to))
}

/// A redirect. It is followed with a `GET` and without the body, so that no password is sent on,
/// and it leaves no referrer. To a location that cannot be sent there is none.
pub open spec fn redirect_to(location: Seq<char>) -> reply::ReplyView {
    if reply::sendable(location) {
        reply::ReplyView {
            status: 303,
            headers: seq![
                ("location"@, location),
                ("cache-control"@, "no-store"@),
                ("referrer-policy"@, "no-referrer"@),
            ],
            body: Seq::empty(),
        }
    } else {
        reply::failure()
    }
}

/// A redirect to `location`.
pub fn redirect(location: &str) -> (r: Reply)
    ensures
        r@ == redirect_to(location@),
{
    if !reply::is_sendable(location) {
        return reply::fail();
    }
    let mut headers: Vec<(String, String)> = Vec::new();
    reply::add_header(&mut headers, "location", location);
    reply::add_header(&mut headers, "cache-control", "no-store");
    reply::add_header(&mut headers, "referrer-policy", "no-referrer");
    let r = Reply { status: 303, headers, body: String::new() };
    assert(r@ =~= redirect_to(location@));
    r
}

/// The headers that set these cookies.
pub open spec fn set_cookies(values: Seq<Seq<char>>) -> Seq<(Seq<char>, Seq<char>)> {
    values.map_values(|v: Seq<char>| ("set-cookie"@, v))
}

/// A response that sets one more cookie.
pub fn append_set_cookie(response: Reply, value: &str) -> (r: Reply)
    ensures
        r@ == (reply::ReplyView {
            headers: response@.headers.push(("set-cookie"@, value@)),
            ..response@
        }),
{
    let mut response = response;
    reply::add_header(&mut response.headers, "set-cookie", value);
    response
}

/// A response that sets the cookies of a session too.
pub fn attach_session_cookies(response: Reply, cookies: &SessionCookies) -> (r: Reply)
    ensures
        r@ == (reply::ReplyView {
            headers: response@.headers + set_cookies(cookies.values()),
            ..response@
        }),
{
    let values: Vec<String> = cookies.header_values();
    let ghost all = text::texts(values@);
    let ghost given = response@;
    let mut r: Reply = response;
    let mut i: usize = 0;
    assert(given.headers + set_cookies(all.take(0)) =~= given.headers);
    while i < values.len()
        invariant
            i <= values@.len(),
            all == text::texts(values@),
            r@ == (reply::ReplyView {
                headers: given.headers + set_cookies(all.take(i as int)),
                ..given
            }),
        decreases values@.len() - i,
    {
        r = append_set_cookie(r, values[i].as_str());
        assert(given.headers + set_cookies(all.take(i + 1)) =~= (given.headers + set_cookies(
            all.take(i as int),
        )).push(("set-cookie"@, all[i as int])));
        i = i + 1;
    }
    assert(all.take(all.len() as int) =~= all);
    r
}

/// A redirect that sets these cookies. With a cookie that cannot be sent there is none.
pub open spec fn redirect_with(location: Seq<char>, cookies: Seq<Seq<char>>) -> reply::ReplyView {
    if reply::sendable(location) && (forall|k: int|
        0 <= k < cookies.len() ==> reply::sendable(#[trigger] cookies[k])) {
        reply::ReplyView {
            headers: redirect_to(location).headers + set_cookies(cookies),
            ..redirect_to(location)
        }
    } else {
        reply::failure()
    }
}

/// A redirect that sets the cookies of a session.
pub fn redirect_setting_cookie(location: &str, cookies: &SessionCookies) -> (r: Reply)
    ensures
        r@ == redirect_with(location@, cookies.values()),
{
    if !reply::is_sendable(location) || !reply::are_sendable(&cookies.header_values()) {
        return reply::fail();
    }
    attach_session_cookies(redirect(location), cookies)
}

/// A redirect to the login page.
pub fn login_redirect(return_to: &str) -> (r: Reply)
    ensures
        r@ == redirect_to(page_url(LOGIN_PATH@, return_to@)),
{
    redirect(interaction_url(LOGIN_PATH, return_to).as_str())
}

/// A redirect to the registration page.
pub fn register_redirect(return_to: &str) -> (r: Reply)
    ensures
        r@ == redirect_to(page_url(REGISTER_PATH@, return_to@)),
{
    redirect(interaction_url(REGISTER_PATH, return_to).as_str())
}

/// A redirect to the consent page.
pub fn consent_redirect(return_to: &str) -> (r: Reply)
    ensures
        r@ == redirect_to(page_url(CONSENT_PATH@, return_to@)),
{
    redirect(interaction_url(CONSENT_PATH, return_to).as_str())
}

/// A redirect to the login page on which only a passkey can be used, so that a password cannot
/// answer a step-up that it does not meet.
pub fn passkey_reauth_redirect(return_to: &str) -> (r: Reply)
    ensures
        r@ == redirect_to(
            util::with_parameter(page_url(LOGIN_PATH@, return_to@), "passkey"@, "1"@),
        ),
{
    let url: String = interaction_url(LOGIN_PATH, return_to);
    redirect(util::append_query(url.as_str(), "passkey", Some("1")).as_str())
}

/// A redirect to the page that asks for a second factor, or, for a subject without one, to enrol
/// one.
pub fn mfa_challenge_redirect(return_to: &str, enroll: bool) -> (r: Reply)
    ensures
        r@ == redirect_to(
            if enroll {
                util::with_parameter(page_url(MFA_CHALLENGE_PATH@, return_to@), "enroll"@, "1"@)
            } else {
                page_url(MFA_CHALLENGE_PATH@, return_to@)
            },
        ),
{
    let url: String = interaction_url(MFA_CHALLENGE_PATH, return_to);
    if enroll {
        redirect(util::append_query(url.as_str(), "enroll", Some("1")).as_str())
    } else {
        redirect(url.as_str())
    }
}

// ---------------------------------------------------------------------------
// Notices
// ---------------------------------------------------------------------------

/// A page that says one thing.
#[derive(Debug, Clone, Copy, PartialEq, Eq)]
pub struct Notice {
    pub status: u16,
    pub title: &'static str,
    pub message: &'static str,
}

/// The notice says this under this title, with this status.
pub open spec fn says(n: Notice, status: u16, title: Seq<char>, message: Seq<char>) -> bool {
    n.status == status && n.title@ == title && n.message@ == message
}

/// There is nothing to return to.
pub fn invalid_link_page() -> (r: Notice)
    ensures
        says(
            r,
            400,
            "Link no longer valid"@,
            "This sign-in link is missing or invalid. Start the sign-in from the application again."@,
        ),
{
    Notice {
        status: 400,
        title: "Link no longer valid",
        message: "This sign-in link is missing or invalid. Start the sign-in from the application again.",
    }
}

/// Something failed.
pub fn server_error_page() -> (r: Notice)
    ensures
        says(
            r,
            500,
            "Something went wrong"@,
            "The request could not be processed. Please try again."@,
        ),
{
    Notice {
        status: 500,
        title: "Something went wrong",
        message: "The request could not be processed. Please try again.",
    }
}

/// The connector has endpoints instead of an issuer.
pub fn federation_unsupported_page() -> (r: Notice)
    ensures
        says(
            r,
            400,
            "Sign-in method not available"@,
            "This federated sign-in is not available. Explicit-endpoint federation is not yet supported; use issuer discovery."@,
        ),
{
    Notice {
        status: 400,
        title: "Sign-in method not available",
        message: "This federated sign-in is not available. Explicit-endpoint federation is not yet supported; use issuer discovery.",
    }
}

/// What is said of a connector that is misconfigured.
pub const CONNECTOR_MISCONFIGURED: &'static str = "This sign-in method is misconfigured and unavailable. An administrator must correct the connector configuration.";

/// What is said of a connector that cannot be reached.
pub const CONNECTOR_UNREACHABLE: &'static str = "This sign-in method is temporarily unavailable because its identity provider could not be reached. Please try again shortly or choose another sign-in method.";

/// A connector is unavailable: for good where `kind` is `config`, else for a while.
pub fn connector_unavailable_page(kind: &str) -> (r: Notice)
    ensures
        says(
            r,
            503,
            "Sign-in method unavailable"@,
            if kind@ == "config"@ {
                CONNECTOR_MISCONFIGURED@
            } else {
                CONNECTOR_UNREACHABLE@
            },
        ),
{
    Notice {
        status: 503,
        title: "Sign-in method unavailable",
        message: if text::same(kind, "config") {
            CONNECTOR_MISCONFIGURED
        } else {
            CONNECTOR_UNREACHABLE
        },
    }
}

/// There is an account already, and nothing was merged into it.
pub fn link_interstitial_page() -> (r: Notice)
    ensures
        says(
            r,
            200,
            "An account already exists"@,
            "An account with this email already exists. For your security we did not merge them automatically. Sign in to that account, then link this provider from your account settings."@,
        ),
{
    Notice {
        status: 200,
        title: "An account already exists",
        message: "An account with this email already exists. For your security we did not merge them automatically. Sign in to that account, then link this provider from your account settings.",
    }
}

/// The provider is linked to an account already; to which one is not said.
pub fn link_conflict_page() -> (r: Notice)
    ensures
        says(
            r,
            409,
            "Already linked"@,
            "This sign-in provider is already linked to an account. It cannot be linked to a second account. Remove the existing link first if you want to move it."@,
        ),
{
    Notice {
        status: 409,
        title: "Already linked",
        message: "This sign-in provider is already linked to an account. It cannot be linked to a second account. Remove the existing link first if you want to move it.",
    }
}

/// The form may have come from elsewhere; by which signal is not said.
pub fn forbidden_page() -> (r: Notice)
    ensures
        says(
            r,
            403,
            "Request blocked"@,
            "This request could not be verified. Start the sign-in from the application again."@,
        ),
{
    Notice {
        status: 403,
        title: "Request blocked",
        message: "This request could not be verified. Start the sign-in from the application again.",
    }
}

// ---------------------------------------------------------------------------
// Laws
// ---------------------------------------------------------------------------

/// An interaction returns to a local authorization path only: one slash, `authorize` and a query,
/// of visible ASCII characters, so that it names no other host and splits no header.
pub proof fn law_an_interaction_returns_to_a_local_path(raw: Option<Seq<char>>)
    requires
        resume_of(raw) is Some,
    ensures
        RESUME_PREFIX@.is_prefix_of(resume_of(raw)->0.return_to),
        resume_of(raw)->0.return_to[0] == '/',
        resume_of(raw)->0.return_to[1] != '/',
        all_visible(resume_of(raw)->0.return_to),
        redirect_to(resume_of(raw)->0.return_to).status == 303,
{
    reveal_strlit("/authorize?");
    let t = resume_of(raw)->0.return_to;
    assert(RESUME_PREFIX@.len() == 11);
    assert(t[0] == RESUME_PREFIX@[0]);
    assert(t[1] == RESUME_PREFIX@[1]);
}

/// The browser state is published under session management only: without it a session begins with
/// one cookie, and with it the second is made from the issuer and the session that began.
pub proof fn law_the_browser_state_is_published_under_session_management(
    plan: CookiePlan,
    session_id: Seq<char>,
    ttl_secs: u64,
    partitioned: bool,
    management: bool,
    issuer: Seq<char>,
    session: Seq<char>,
    op_browser_state: Seq<char>,
    cookies: SessionCookies,
)
    requires
        plan.is_for(session_id, ttl_secs, partitioned, management, issuer),
        made_after(plan, session, op_browser_state, cookies),
    ensures
        cookies.session_id@ == session_id,
        cookies.values() == (if management {
            seq![session, op_browser_state]
        } else {
            seq![session]
        }),
        management ==> text::opt_text(plan.browser_state_issuer) == Some(issuer),
        !management ==> plan.browser_state_issuer is None,
{
}

/// A request that the browser calls cross-site is rejected, whatever origin it states.
pub proof fn law_a_cross_site_request_is_rejected(
    headers: Map<Seq<char>, Seq<char>>,
    expected: Option<Seq<char>>,
)
    requires
        site_is(headers, "cross-site"@),
    ensures
        !same_origin(headers, expected),
{
}

/// A disclosed origin that is not the own one is rejected, whatever the fetch metadata says.
pub proof fn law_a_foreign_origin_is_rejected(
    headers: Map<Seq<char>, Seq<char>>,
    expected: Seq<char>,
)
    requires
        header_of(headers, ORIGIN@) matches Some(o) && !opaque_origin(o) && comparable(o)
            != comparable(expected),
    ensures
        !same_origin(headers, Some(expected)),
{
}

/// An origin that is not disclosed is accepted only where the browser says that it is the own
/// one; a sibling site is not.
pub proof fn law_an_opaque_origin_needs_same_origin(
    headers: Map<Seq<char>, Seq<char>>,
    expected: Option<Seq<char>>,
    allowed: Seq<Seq<char>>,
)
    requires
        header_of(headers, ORIGIN@) matches Some(o) && opaque_origin(o),
        !site_is(headers, "same-origin"@),
    ensures
        !same_origin(headers, expected),
        !related_origin(headers, allowed),
{
}

/// Upper and lower case do not tell origins apart.
pub proof fn law_origins_ignore_case(a: Seq<char>, b: Seq<char>)
    requires
        text::lower(a) == text::lower(b),
    ensures
        origin(a) == origin(b),
{
}

/// A ceremony that states no origin is refused unless the browser says that it is the own one, and
/// one that states an origin is accepted exactly where the operator lists it.
pub proof fn law_only_listed_origins_run_ceremonies(
    headers: Map<Seq<char>, Seq<char>>,
    allowed: Seq<Seq<char>>,
)
    ensures
        header_of(headers, ORIGIN@) is None ==> related_origin(headers, allowed) == site_is(
            headers,
            "same-origin"@,
        ),
        header_of(headers, ORIGIN@) matches Some(o) ==> (!opaque_origin(o) ==> related_origin(
            headers,
            allowed,
        ) == listed(allowed, text::trim(o))),
{
}

/// A binding that is turned on cannot be left out: neither a record nor a request without the
/// value resolves.
pub proof fn law_a_binding_cannot_be_left_out(
    record: SessionRecord,
    knobs: BindingKnobs,
    user_agent: Option<Seq<char>>,
    peer_ip: Option<Seq<char>>,
)
    ensures
        knobs.peer_ip && (peer_ip is None || record.peer_ip is None) ==> !bindings_hold(
            knobs,
            record,
            user_agent,
            peer_ip,
        ),
        knobs.device && (user_agent is None || record.user_agent is None) ==> !bindings_hold(
            knobs,
            record,
            user_agent,
            peer_ip,
        ),
        !knobs.peer_ip && !knobs.device ==> bindings_hold(knobs, record, user_agent, peer_ip),
{
}

/// A signal has a successor exactly where it is a rotation, and the session of another subject is
/// never passed off as living on.
pub proof fn law_only_a_rotation_has_a_successor(
    tenant: Seq<char>,
    environment: Seq<char>,
    prior: Option<Seq<char>>,
    session_id: Seq<char>,
    outcome: PriorSessionOutcome,
)
    ensures
        transition(tenant, environment, prior, session_id, outcome) matches Some(s) ==> (s.successor
            is Some <==> outcome is Carried) && (s.cause is Rotated <==> outcome is Carried),
        prior is None ==> transition(tenant, environment, prior, session_id, outcome) is None,
{
}

/// A value that is, but for the white space around it, a local authorization path with a query that
/// names a client is returned to. The client, the scope where it is not empty, and the hints are
/// those of the query. Of a path whose query names no client, and of no value at all, nothing comes.
pub proof fn law_a_local_path_is_returned_to(raw: Seq<char>, query: Seq<char>)
    requires
        text::trim(raw) == "/authorize?"@ + query,
        forall|i: int| 0 <= i < query.len() ==> 0x21 <= (#[trigger] query[i]) as u32 <= 0x7E,
    ensures
        (resume_of(Some(raw)) is Some) <==> util::query_value(query, "client_id"@) is Some,
        resume_of(Some(raw)) matches Some(t) ==> {
            &&& t.return_to == "/authorize?"@ + query
            &&& util::query_value(query, "client_id"@) == Some(t.client_id)
            &&& t.oauth_scope matches Some(scope) ==> scope.len() > 0 && util::query_value(
                query,
                "scope"@,
            ) == Some(scope)
            &&& t.oauth_scope is None ==> (util::query_value(query, "scope"@) matches Some(scope)
                ==> scope.len() == 0)
            &&& t.hints == hints::hints_in(query)
        },
        resume_of(None) is None,
{
    reveal_strlit("/authorize?");
    let target = text::trim(raw);
    assert(RESUME_PREFIX@ == "/authorize?"@);
    assert(RESUME_PREFIX@.len() == 11);
    assert(target.skip(11) =~= query);
    assert(RESUME_PREFIX@.is_prefix_of(target)) by {
        assert(target.take(11) =~= RESUME_PREFIX@);
    }
    assert forall|i: int| 0 <= i < target.len() implies visible(#[trigger] target[i]) by {
        if i >= 11 {
            assert(target[i] == query[i - 11]);
        } else {
            assert(target[i] == RESUME_PREFIX@[i]);
        }
    }
}

proof fn lemma_authority_end(host: Seq<char>, rest: Seq<char>)
    requires
        !host.contains('/') && !host.contains('?') && !host.contains('#'),
        rest.len() > 0 ==> rest[0] == '/' || rest[0] == '?' || rest[0] == '#',
    ensures
        authority_end(host + rest) == host.len(),
    decreases host.len(),
{
    let s = host + rest;
    if host.len() == 0 {
        assert(s =~= rest);
    } else {
        assert(s[0] == host[0]);
        assert(host.contains(host[0]));
        assert(s.skip(1) =~= host.skip(1) + rest);
        assert(!host.skip(1).contains('/') && !host.skip(1).contains('?') && !host.skip(1).contains(
            '#',
        )) by {
            assert forall|k: int| 0 <= k < host.skip(1).len() implies #[trigger] host.skip(1)[k] != '/'
                && host.skip(1)[k] != '?' && host.skip(1)[k] != '#' by {
                assert(host.skip(1)[k] == host[k + 1]);
                assert(host.contains(host[k + 1]));
            }
        }
        lemma_authority_end(host.skip(1), rest);
    }
}

/// The origin of a URL is its scheme and its host, whatever path, query and fragment stand behind
/// them. The port `443` of `https` and the port `80` of `http` are left out; every other port stays.
pub proof fn law_an_origin_is_the_scheme_and_the_host(
    scheme: Seq<char>,
    host: Seq<char>,
    rest: Seq<char>,
)
    requires
        scheme.len() > 0,
        host.len() > 0,
        !scheme.contains(':'),
        !host.contains('/') && !host.contains('?') && !host.contains('#'),
        rest.len() > 0 ==> rest[0] == '/' || rest[0] == '?' || rest[0] == '#',
        text::lower(scheme) == scheme,
        text::lower(host) == host,
    ensures
        origin(scheme + "://"@ + host + rest) is Some,
        forall|bare: Seq<char>|
            scheme == "https"@ && host == #[trigger] (bare + ":443"@) ==> origin(
                scheme + "://"@ + host + rest,
            ) == Some("https://"@ + bare),
        forall|bare: Seq<char>|
            scheme == "http"@ && host == #[trigger] (bare + ":80"@) ==> origin(
                scheme + "://"@ + host + rest,
            ) == Some("http://"@ + bare),
        !(scheme == "https"@ && ends_with(host, ":443"@)) && !(scheme == "http"@ && ends_with(
            host,
            ":80"@,
        )) ==> origin(scheme + "://"@ + host + rest) == Some(scheme + "://"@ + host),
{
    reveal_strlit("://");
    reveal_strlit("//");
    reveal_strlit(":443");
    reveal_strlit(":80");
    reveal_strlit("https");
    reveal_strlit("http");
    reveal_strlit("https://");
    reveal_strlit("http://");
    let url = scheme + "://"@ + host + rest;
    let low = text::lower(rest);
    let t = text::lower(url);
    let right = seq!['/', '/'] + host + low;
    assert(t =~= scheme + seq![':'] + right) by {
        assert forall|i: int| 0 <= i < t.len() implies t[i] == #[trigger] (scheme + seq![':']
            + right)[i] by {
            if i < scheme.len() {
                assert(text::lower(scheme)[i] == scheme[i]);
            } else if scheme.len() + 3 <= i < scheme.len() + 3 + host.len() {
                let k = i - scheme.len() - 3;
                assert(url[i] == host[k]);
                assert(text::lower(host)[k] == host[k]);
            } else if i >= scheme.len() + 3 + host.len() {
                let k = i - scheme.len() - 3 - host.len();
                assert(url[i] == rest[k]);
                assert(low[k] == text::lower_char(rest[k]));
            }
        }
    }
    text::law_a_text_has_two_sides(scheme, right, ':');
    assert(right.skip(2) =~= host + low);
    if low.len() > 0 {
        assert(low[0] == text::lower_char(rest[0]));
    }
    lemma_authority_end(host, low);
    assert((host + low).take(host.len() as int) =~= host);
    assert("//"@ =~= seq!['/', '/']);
    assert("//"@.is_prefix_of(right)) by {
        assert(right.take(2) =~= "//"@);
    }
    assert(origin(url) == Some(scheme + "://"@ + without_default_port(scheme, host)));
    assert forall|bare: Seq<char>|
        scheme == "https"@ && host == #[trigger] (bare + ":443"@) implies origin(url) == Some(
        "https://"@ + bare,
    ) by {
        assert(host.subrange(host.len() - 4, host.len() as int) =~= ":443"@);
        assert(host.take(host.len() - 4) =~= bare);
        assert("https"@ + "://"@ =~= "https://"@);
    }
    assert forall|bare: Seq<char>|
        scheme == "http"@ && host == #[trigger] (bare + ":80"@) implies origin(url) == Some(
        "http://"@ + bare,
    ) by {
        assert("https"@.len() == 5 && "http"@.len() == 4);
        assert(host.subrange(host.len() - 3, host.len() as int) =~= ":80"@);
        assert(host.take(host.len() - 3) =~= bare);
        assert("http"@ + "://"@ =~= "http://"@);
    }
}

/// A form that the browser does not call cross-site is accepted where it states no origin; where the
/// origin that it states is the own one, or no own one is known; and, where the browser does not
/// disclose it, exactly where the browser calls the form same-origin. A disclosed origin other than
/// the own one is not accepted.
pub proof fn law_a_form_of_the_own_pages_is_accepted(
    headers: Map<Seq<char>, Seq<char>>,
    expected: Option<Seq<char>>,
)
    requires
        headers.contains_key("sec-fetch-site"@) ==> text::lower(headers["sec-fetch-site"@])
            != "cross-site"@,
    ensures
        !headers.contains_key("origin"@) ==> same_origin(headers, expected),
        headers.contains_key("origin"@) && text::lower(text::trim(headers["origin"@])) != "null"@ ==> (
        same_origin(headers, expected) <==> (expected matches Some(own) ==> comparable(
            headers["origin"@],
        ) == comparable(own))),
        headers.contains_key("origin"@) && text::lower(text::trim(headers["origin"@])) != "null"@
            && expected == Some(headers["origin"@]) ==> same_origin(headers, expected),
        headers.contains_key("origin"@) && text::lower(text::trim(headers["origin"@])) == "null"@ ==> (
        same_origin(headers, expected) <==> (headers.contains_key("sec-fetch-site"@) && text::lower(
            headers["sec-fetch-site"@],
        ) == "same-origin"@)),
{
}

/// A form that the browser calls cross-site, in whatever case, is not accepted.
pub proof fn law_a_form_from_another_site_is_refused(
    headers: Map<Seq<char>, Seq<char>>,
    expected: Option<Seq<char>>,
)
    requires
        headers.contains_key("sec-fetch-site"@),
        text::lower(headers["sec-fetch-site"@]) == "cross-site"@,
    ensures
        !same_origin(headers, expected),
{
}

/// A ceremony runs from every origin that the operator lists, at whatever place of the list, and
/// from no other that is disclosed. Without a disclosed origin it runs exactly where the browser
/// calls the request same-origin.
pub proof fn law_a_ceremony_runs_from_the_listed_origins(
    headers: Map<Seq<char>, Seq<char>>,
    allowed: Seq<Seq<char>>,
)
    ensures
        headers.contains_key("origin"@) && text::lower(text::trim(headers["origin"@])) != "null"@ ==> (
        related_origin(headers, allowed) <==> (exists|i: int|
            0 <= i < allowed.len() && comparable(#[trigger] allowed[i]) == comparable(
                text::trim(headers["origin"@]),
            ))),
        !headers.contains_key("origin"@) || text::lower(text::trim(headers["origin"@])) == "null"@ ==> (
        related_origin(headers, allowed) <==> (headers.contains_key("sec-fetch-site"@)
            && text::lower(headers["sec-fetch-site"@]) == "same-origin"@)),
{
}

/// What is compared of an origin is the origin where there is one, and else the text itself.
pub proof fn law_an_origin_is_compared_as_such(url: Seq<char>)
    ensures
        origin(url) matches Some(o) ==> comparable(url) == o,
        origin(url) is None ==> comparable(url) == url,
{
}

/// A session is that of a request where each binding that is turned on holds: the address of the
/// record is that of the request, and the device of the record is that of the request. What is not
/// turned on is not compared.
pub proof fn law_a_binding_is_compared_where_it_is_turned_on(
    knobs: BindingKnobs,
    record: SessionRecord,
    user_agent: Seq<char>,
    peer_ip: Seq<char>,
)
    ensures
        bindings_hold(knobs, record, Some(user_agent), Some(peer_ip)) <==> {
            &&& knobs.peer_ip ==> (record.peer_ip matches Some(bound) && bound@ == peer_ip)
            &&& knobs.device ==> (record.user_agent matches Some(bound) && bound@ == user_agent)
        },
        gated(true, Some(user_agent)) == Some(user_agent),
        gated(true, None) is None,
        gated(false, Some(user_agent)) is None,
{
}

/// The session that the browser held is published of, under its own identifier and in its scope: as
/// rotated into the one that began where it lives on, and as replaced where it was another
/// subject's. Where there was none, nothing is published.
pub proof fn law_what_became_of_a_session_is_published(
    tenant: Seq<char>,
    environment: Seq<char>,
    prior: Seq<char>,
    session_id: Seq<char>,
)
    ensures
        transition(tenant, environment, Some(prior), session_id, PriorSessionOutcome::Carried) matches Some(
            s,
        ) && s.tenant == tenant && s.environment == environment && s.session_id == prior
            && s.cause == SessionSignalCause::Rotated && s.successor == Some(session_id),
        transition(
            tenant,
            environment,
            Some(prior),
            session_id,
            PriorSessionOutcome::RevokedForeignSubject,
        ) matches Some(s) && s.tenant == tenant && s.environment == environment && s.session_id == prior
            && s.cause == SessionSignalCause::ReplacedByOtherSubject && s.successor is None,
        transition(tenant, environment, Some(prior), session_id, PriorSessionOutcome::Nothing) is None,
        transition(tenant, environment, None, session_id, PriorSessionOutcome::Carried) is None,
        transition(tenant, environment, None, session_id, PriorSessionOutcome::RevokedForeignSubject) is None,
{
}

/// A redirect sends the browser on with a `GET`: it names the location first, is not stored, leaves
/// no referrer, has no body, and sets the cookies behind these headers, each in its own one and in
/// their order. With a location or a cookie that cannot be sent there is a failure that says
/// nothing.
pub proof fn law_a_redirect_leads_to_its_location(location: Seq<char>, cookies: Seq<Seq<char>>, k: int)
    ensures
        reply::sendable(location) ==> {
            &&& redirect_to(location).status == 303
            &&& redirect_to(location).headers.len() == 3
            &&& redirect_to(location).headers[0] == ("location"@, location)
            &&& redirect_to(location).headers[1] == ("cache-control"@, "no-store"@)
            &&& redirect_to(location).headers[2] == ("referrer-policy"@, "no-referrer"@)
            &&& redirect_to(location).body.len() == 0
        },
        reply::sendable(location) && (forall|i: int|
            0 <= i < cookies.len() ==> reply::sendable(#[trigger] cookies[i])) ==> {
            let r = redirect_with(location, cookies);
            &&& r.status == 303
            &&& r.headers.len() == 3 + cookies.len()
            &&& r.headers[0] == ("location"@, location)
            &&& r.headers[1] == ("cache-control"@, "no-store"@)
            &&& r.headers[2] == ("referrer-policy"@, "no-referrer"@)
            &&& 0 <= k < cookies.len() ==> r.headers[3 + k] == ("set-cookie"@, cookies[k])
            &&& r.body.len() == 0
        },
        !reply::sendable(location) ==> redirect_to(location).status == 500 && redirect_to(
            location,
        ).headers.len() == 0 && redirect_with(location, cookies).status == 500,
        0 <= k < cookies.len() && !reply::sendable(cookies[k]) ==> redirect_with(
            location,
            cookies,
        ).status == 500 && redirect_with(location, cookies).headers.len() == 0,
{
}

/// A session begins with its own cookie first, and with that of the browser state behind it where
/// there is one.
pub proof fn law_the_cookie_of_the_session_comes_first(cookies: SessionCookies)
    ensures
        cookies.values().len() == (if cookies.op_browser_state is Some {
            2nat
        } else {
            1nat
        }),
        cookies.values()[0] == cookies.session@,
        cookies.op_browser_state matches Some(state) ==> cookies.values()[1] == state@,
{
}

/// A page of an interaction is reached under its own path, and the place to return to is read back
/// from its query.
pub proof fn law_a_page_returns_to_where_it_was_asked_for(path: Seq<char>, return_to: Seq<char>)
    requires
        !path.contains('?'),
    ensures
        page_url(path, return_to).take(path.len() as int) == path,
        util::query_value(text::behind(page_url(path, return_to), '?'), "return_to"@) == Some(return_to),
{
    reveal_strlit("return_to");
    util::law_a_parameter_is_added_to_a_url(path, "return_to"@, return_to);
}

/// What an interaction returns to is read in its own places.
pub proof fn law_a_place_to_return_to_is_read_as_it_is(target: ResumeTarget)
    ensures
        target@.return_to == target.return_to@,
        target@.client_id == target.client_id@,
        target.oauth_scope matches Some(s) ==> target@.oauth_scope == Some(s@),
        target.oauth_scope is None ==> target@.oauth_scope is None,
        target@.hints == target.hints@,
{
}

} // verus!
