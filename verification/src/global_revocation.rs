//! The global token revocation receiver: from an authenticated request to what is revoked.
//!
//! A confidential client names a subject, and every session and refresh-token family of that
//! subject ends. A request that names none the receiver knows is refused, never answered as if
//! something had been revoked.

use vstd::prelude::*;

use crate::reply;
use crate::reply::Reply;
use crate::text;

verus! {

/// The route of the receiver.
pub const GLOBAL_TOKEN_REVOCATION_PATH: &'static str = "/global-token-revocation";

/// The format of a subject identifier that the receiver consumes.
pub const OPAQUE_FORMAT: &'static str = "opaque";

/// A subject identifier, as far as the receiver reads it.
#[derive(Debug, PartialEq, Eq)]
pub struct SubjectIdentifier {
    /// The format of the identifier.
    pub format: String,
    /// The identifier, for the format that has one.
    pub id: Option<String>,
}

/// The subject that an identifier of this format names here.
pub open spec fn subject_named(format: Seq<char>, id: Option<Seq<char>>) -> Option<Seq<char>> {
    if format != OPAQUE_FORMAT@ {
        None
    } else {
        match id {
            Some(s) => if text::trim(s).len() == 0 {
                None
            } else {
                Some(text::trim(s))
            },
            None => None,
        }
    }
}

impl SubjectIdentifier {
    /// The subject that this identifier names, where its format is one that is consumed and it is
    /// not blank.
    pub fn local_subject(&self) -> (r: Option<String>)
        ensures
            text::opt_text(r) == subject_named(self.format@, text::opt_text(self.id)),
    {
        if !text::same(self.format.as_str(), OPAQUE_FORMAT) {
            return None;
        }
        match &self.id {
            Some(id) => {
                let t: String = text::trimmed(id.as_str());
                if t.as_str().is_empty() {
                    None
                } else {
                    Some(t)
                }
            },
            None => None,
        }
    }
}

/// The message for a body that is not a request.
pub const MALFORMED_BODY: &'static str = "the request body must be a JSON object with a sub_id member";

/// The message for an identifier that names no subject here.
pub const UNSUPPORTED_IDENTIFIER: &'static str = "unsupported subject identifier: this receiver consumes the opaque format (an RFC 9493 sub_id with format \"opaque\" and an id)";

/// The message for a subject of another scope, or of none.
pub const UNRESOLVED_IDENTIFIER: &'static str = "the subject identifier does not resolve in this scope";

/// What a revocation request comes to.
#[derive(Debug, PartialEq, Eq)]
pub enum RevocationStep {
    /// The client is not one that may revoke.
    Unauthorized,
    /// The request is bad, for this reason.
    InvalidRequest(&'static str),
    /// This subject is to be looked up in the scope of the client.
    Resolve(String),
    /// Everything that this subject holds is to be revoked; with `hard_kill` also what the user
    /// granted for when they are away.
    Revoke { subject: String, hard_kill: bool },
    /// It was.
    NoContent,
    /// It could not be.
    ServerError,
}

/// How the client authenticated.
#[derive(Debug, Clone, Copy, PartialEq, Eq, Structural)]
pub enum Authenticated {
    /// It did not.
    No,
    /// By naming itself, without a secret.
    Public,
    /// With a credential.
    Confidential,
}

/// What is known of a revocation request. What is absent was not looked up yet.
pub struct RevocationRequest {
    /// How the client authenticated.
    pub client: Authenticated,
    /// The identifier in the body, where the body is a request.
    pub sub_id: Option<SubjectIdentifier>,
    /// Such a revocation also ends what the user granted for when they are away.
    pub hard_kill: bool,
    /// Whether the subject is one of the client's scope.
    pub in_scope: Option<bool>,
    /// Whether the revocation was stored. One that found nothing left to revoke was stored too.
    pub stored: Option<bool>,
}

/// The subject that a request names here, where it names one.
pub open spec fn named_subject(f: RevocationRequest) -> Option<Seq<char>> {
    match f.sub_id {
        Some(id) => subject_named(id.format@, text::opt_text(id.id)),
        None => None,
    }
}

/// The request is bad, for this reason.
pub open spec fn bad_request(step: RevocationStep, why: Seq<char>) -> bool {
    step matches RevocationStep::InvalidRequest(m) && m@ == why
}

/// What a revocation request comes to: the client, the body, the subject and the store, in this
/// order.
pub open spec fn revocation_follows(f: RevocationRequest, step: RevocationStep) -> bool {
    if !(f.client is Confidential) {
        step is Unauthorized
    } else if f.sub_id is None {
        bad_request(step, MALFORMED_BODY@)
    } else {
        match (named_subject(f), f.in_scope, f.stored) {
            (None, _, _) => bad_request(step, UNSUPPORTED_IDENTIFIER@),
            (Some(subject), None, _) => step matches RevocationStep::Resolve(s) && s@ == subject,
            (Some(_), Some(false), _) => bad_request(step, UNRESOLVED_IDENTIFIER@),
            (Some(subject), Some(true), None) => step matches RevocationStep::Revoke {
                subject: s,
                hard_kill,
            } && s@ == subject && hard_kill == f.hard_kill,
            (Some(_), Some(true), Some(stored)) => if stored {
                step is NoContent
            } else {
                step is ServerError
            },
        }
    }
}

/// What a revocation request comes to, from what is known of it.
pub fn global_token_revocation(f: &RevocationRequest) -> (r: RevocationStep)
    ensures
        revocation_follows(*f, r),
{
    match f.client {
        Authenticated::Confidential => {},
        _ => return RevocationStep::Unauthorized,
    }
    let id = match &f.sub_id {
        Some(id) => id,
        None => return RevocationStep::InvalidRequest(MALFORMED_BODY),
    };
    let subject: String = match id.local_subject() {
        Some(subject) => subject,
        None => return RevocationStep::InvalidRequest(UNSUPPORTED_IDENTIFIER),
    };
    match f.in_scope {
        None => RevocationStep::Resolve(subject),
        Some(false) => RevocationStep::InvalidRequest(UNRESOLVED_IDENTIFIER),
        Some(true) => match f.stored {
            None => RevocationStep::Revoke { subject, hard_kill: f.hard_kill },
            Some(true) => RevocationStep::NoContent,
            Some(false) => RevocationStep::ServerError,
        },
    }
}

/// The answer to a revocation.
pub fn no_content() -> (r: Reply)
    ensures
        r@ == (reply::ReplyView {
            status: 204,
            headers: seq![("cache-control"@, "no-store"@), ("pragma"@, "no-cache"@)],
            body: Seq::empty(),
        }),
{
    let mut headers: Vec<(String, String)> = Vec::new();
    reply::add_header(&mut headers, "cache-control", "no-store");
    reply::add_header(&mut headers, "pragma", "no-cache");
    assert(reply::pairs(headers@) =~= seq![
        ("cache-control"@, "no-store"@),
        ("pragma"@, "no-cache"@),
    ]);
    Reply { status: 204, headers, body: String::new() }
}

/// The answer to a client that may not revoke: one for a missing credential and a bad one.
pub fn unauthorized() -> (r: Reply)
    ensures
        r@ == (reply::ReplyView {
            status: 401,
            headers: seq![
                ("www-authenticate"@, "Basic realm=\"ironauth\", charset=\"UTF-8\""@),
                ("content-type"@, "application/json"@),
                ("cache-control"@, "no-store"@),
            ],
            body: "{\"error\":\"invalid_client\"}"@,
        }),
{
    let mut headers: Vec<(String, String)> = Vec::new();
    reply::add_header(
        &mut headers,
        "www-authenticate",
        "Basic realm=\"ironauth\", charset=\"UTF-8\"",
    );
    reply::add_header(&mut headers, "content-type", "application/json");
    reply::add_header(&mut headers, "cache-control", "no-store");
    assert(reply::pairs(headers@) =~= seq![
        ("www-authenticate"@, "Basic realm=\"ironauth\", charset=\"UTF-8\""@),
        ("content-type"@, "application/json"@),
        ("cache-control"@, "no-store"@),
    ]);
    Reply { status: 401, headers, body: "{\"error\":\"invalid_client\"}".to_owned() }
}

// ---------------------------------------------------------------------------
// Signals
// ---------------------------------------------------------------------------

/// Why a session ended.
#[derive(Debug, Clone, Copy, PartialEq, Eq, Structural)]
pub enum SessionSignalCause {
    /// Everything of its subject was revoked.
    UserRevokedAll,
    /// The user signed out.
    LoggedOut,
    /// It was replaced by another one when the caller authenticated again.
    Rotated,
    /// Another subject signed in over it.
    ReplacedByOtherSubject,
}

/// That a session ended, and which one came after it.
#[derive(Debug, PartialEq, Eq)]
pub struct SessionLifecycleEvent {
    pub tenant: String,
    pub environment: String,
    pub session_id: String,
    pub cause: SessionSignalCause,
    pub successor_session_id: Option<String>,
}

/// The model of a [`SessionLifecycleEvent`].
pub struct SignalView {
    pub tenant: Seq<char>,
    pub environment: Seq<char>,
    pub session_id: Seq<char>,
    pub cause: SessionSignalCause,
    pub successor: Option<Seq<char>>,
}

impl View for SessionLifecycleEvent {
    type V = SignalView;

    open spec fn view(&self) -> SignalView {
        SignalView {
            tenant: self.tenant@,
            environment: self.environment@,
            session_id: self.session_id@,
            cause: self.cause,
            successor: text::opt_text(self.successor_session_id),
        }
    }
}

/// The signals of a revocation: one for each session that it ended, and none of them has a
/// successor.
pub fn terminal_signals(tenant: &str, environment: &str, revoked: &Vec<String>) -> (r: Vec<
    SessionLifecycleEvent,
>)
    ensures
        r@.len() == revoked@.len(),
        forall|i: int|
            0 <= i < r@.len() ==> (#[trigger] r@[i])@ == (SignalView {
                tenant: tenant@,
                environment: environment@,
                session_id: revoked@[i]@,
                cause: SessionSignalCause::UserRevokedAll,
                successor: None,
            }),
{
    let mut r: Vec<SessionLifecycleEvent> = Vec::new();
    let mut i: usize = 0;
    while i < revoked.len()
        invariant
            i <= revoked@.len(),
            r@.len() == i,
            forall|k: int|
                0 <= k < i ==> (#[trigger] r@[k])@ == (SignalView {
                    tenant: tenant@,
                    environment: environment@,
                    session_id: revoked@[k]@,
                    cause: SessionSignalCause::UserRevokedAll,
                    successor: None,
                }),
        decreases revoked@.len() - i,
    {
        r.push(
            SessionLifecycleEvent {
                tenant: tenant.to_owned(),
                environment: environment.to_owned(),
                session_id: revoked[i].clone(),
                cause: SessionSignalCause::UserRevokedAll,
                successor_session_id: None,
            },
        );
        i = i + 1;
    }
    r
}

// ---------------------------------------------------------------------------
// Laws
// ---------------------------------------------------------------------------

/// Nothing is revoked, nor said to be, unless a client with a credential named a subject of its
/// own scope.
pub proof fn law_only_a_confidential_client_revokes_in_its_scope(
    f: RevocationRequest,
    step: RevocationStep,
)
    requires
        revocation_follows(f, step),
        step is Revoke || step is NoContent,
    ensures
        f.client is Confidential,
        named_subject(f) is Some,
        f.in_scope == Some(true),
{
}

/// A revocation that was not stored is never said to be done, and one that was always is.
pub proof fn law_done_is_said_only_of_what_was_stored(f: RevocationRequest, step: RevocationStep)
    requires
        revocation_follows(f, step),
    ensures
        step is NoContent ==> f.stored == Some(true),
        f.stored == Some(true) && f.client is Confidential && named_subject(f) is Some && f.in_scope
            == Some(true) ==> step is NoContent,
{
}

/// An identifier names a subject here where its format is the opaque one and something is left of it
/// without the white space around it: that is the subject. No other identifier names one.
pub proof fn law_an_opaque_identifier_names_its_subject(format: Seq<char>, id: Option<Seq<char>>)
    ensures
        (subject_named(format, id) is Some) <==> (format == "opaque"@ && (id matches Some(raw)
            && text::trim(raw).len() > 0)),
        subject_named(format, id) matches Some(subject) ==> (id matches Some(raw) && subject
            == text::trim(raw)),
{
}

/// A revocation takes its steps in order: a client without a credential is refused; a body that is
/// no request, an identifier that names no subject, and a subject of another scope are bad; the
/// subject of an opaque identifier is looked up, then everything of it is revoked, as hard as the
/// client is configured to; and what was stored is said to be done, and what was not to have failed.
pub proof fn law_a_revocation_goes_its_way(f: RevocationRequest, step: RevocationStep)
    requires
        revocation_follows(f, step),
    ensures
        f.client is No || f.client is Public ==> step is Unauthorized,
        f.client is Confidential && f.sub_id is None ==> (step matches RevocationStep::InvalidRequest(why)
            && why@ == MALFORMED_BODY@),
        f.client is Confidential ==> (f.sub_id matches Some(id) ==> (id.format@ != "opaque"@ || (
        id.id matches Some(raw) ==> text::trim(raw@).len() == 0) ==> (
        step matches RevocationStep::InvalidRequest(why) && why@ == UNSUPPORTED_IDENTIFIER@))),
        f.client is Confidential ==> (f.sub_id matches Some(id) ==> (id.format@ == "opaque"@ ==> (
        id.id matches Some(raw) ==> (text::trim(raw@).len() > 0 ==> {
            &&& f.in_scope is None ==> (step matches RevocationStep::Resolve(s) && s@ == text::trim(
                raw@,
            ))
            &&& f.in_scope == Some(false) ==> (step matches RevocationStep::InvalidRequest(why) && why@
                == UNRESOLVED_IDENTIFIER@)
            &&& f.in_scope == Some(true) && f.stored is None ==> (step matches RevocationStep::Revoke {
                subject,
                hard_kill,
            } && subject@ == text::trim(raw@) && hard_kill == f.hard_kill)
            &&& f.in_scope == Some(true) && f.stored == Some(true) ==> step is NoContent
            &&& f.in_scope == Some(true) && f.stored == Some(false) ==> step is ServerError
        })))),
{
}

/// A signal tells each thing of a session in its own place.
pub proof fn law_a_signal_tells_what_it_holds(event: SessionLifecycleEvent)
    ensures
        event@.tenant == event.tenant@,
        event@.environment == event.environment@,
        event@.session_id == event.session_id@,
        event@.cause == event.cause,
        event.successor_session_id matches Some(s) ==> event@.successor == Some(s@),
        event.successor_session_id is None ==> event@.successor is None,
{
}

} // verus!
