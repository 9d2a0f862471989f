//! Ending a session at the request of a client.
//!
//! The hint of the request, once it verified, names the session that ends; the cookie of the
//! browser never does. Without such a hint a request that was merely opened changes nothing: it
//! asks, and only the form of that page ends the session of the browser. A browser is sent on only
//! to an address that the client registered, letter for letter, and only if it is the browser of
//! the session that ended.

use vstd::prelude::*;

use crate::global_revocation::SessionLifecycleEvent;
use crate::global_revocation::SessionSignalCause;
use crate::headers::Headers;
use crate::hints;
use crate::interaction;
use crate::interaction::Notice;
use crate::introspection;
use crate::json;
use crate::login;
use crate::reply;
use crate::reply::Reply;
use crate::text;
use crate::token_credential;
use crate::util;

verus! {

/// Where the request is sent.
pub const END_SESSION_PATH: &'static str = "/end_session";

/// The parameters of the request.
#[derive(Debug)]
pub struct LogoutParams {
    /// An ID token of the session to end; it may have expired.
    pub id_token_hint: Option<String>,
    /// The client that asks.
    pub client_id: Option<String>,
    /// Who is to be signed out. It is carried, and changes nothing.
    pub logout_hint: Option<String>,
    /// What is handed back to the client.
    pub state: Option<String>,
    /// The languages of the user. They are carried, and change nothing.
    pub ui_locales: Option<String>,
    /// Where the browser is to go.
    pub post_logout_redirect_uri: Option<String>,
}

impl Default for LogoutParams {
    fn default() -> (r: LogoutParams)
        ensures
            r.id_token_hint is None && r.client_id is None && r.logout_hint is None && r.state is None
                && r.ui_locales is None && r.post_logout_redirect_uri is None,
    {
        LogoutParams {
            id_token_hint: None,
            client_id: None,
            logout_hint: None,
            state: None,
            ui_locales: None,
            post_logout_redirect_uri: None,
        }
    }
}

// ---------------------------------------------------------------------------
// Whom the request is for
// ---------------------------------------------------------------------------

/// The client that a token claims to be for: the first of its audiences.
pub open spec fn claimed_client(hint: Seq<char>) -> Option<Seq<char>> {
    match token_credential::unverified_claims(hint) {
        None => None,
        Some(claims) => match json::json_member(claims, "aud"@) {
            None => None,
            Some(aud) => match introspection::audiences(aud) {
                None => None,
                Some(list) => Some(list[0]),
            },
        },
    }
}

/// The first audience in an `aud` claim.
pub fn first_audience(aud: &serde_json::Value) -> (r: Option<String>)
    ensures
        text::opt_text(r) == (match introspection::audiences(*aud) {
            None => None,
            Some(list) => Some(list[0]),
        }),
{
    match introspection::audiences_in(aud) {
        Some(list) => {
            assert(text::texts(list@).len() > 0);
            assert(text::texts(list@)[0] == list@[0]@);
            Some(list[0].clone())
        },
        None => None,
    }
}

/// The client that a token claims to be for, without verifying it.
pub fn audience_client(hint: &str) -> (r: Option<String>)
    ensures
        text::opt_text(r) == claimed_client(hint@),
{
    match token_credential::peek_claims(hint) {
        Some(claims) => match json::member(&claims, "aud") {
            Some(aud) => first_audience(aud),
            None => None,
        },
        None => None,
    }
}

/// The client that a request is for: the one that it names, or else the one of its hint. The hint
/// has to verify for that client.
pub open spec fn client_of(hint: Seq<char>, client_id: Option<Seq<char>>) -> Option<Seq<char>> {
    match client_id {
        Some(id) => Some(text::trim(id)),
        None => claimed_client(hint),
    }
}

/// The client that a request is for.
pub fn attribute(hint: &str, client_id: Option<&str>) -> (r: Option<String>)
    ensures
        text::opt_text(r) == client_of(hint@, text::opt_str(client_id)),
{
    match client_id {
        Some(id) => Some(text::trimmed(id)),
        None => audience_client(hint),
    }
}

/// A hint that verified: the client that it was issued to, and the session that it names.
pub struct Attributed {
    pub client_id: String,
    pub sid: Option<String>,
}

// ---------------------------------------------------------------------------
// Answers
// ---------------------------------------------------------------------------

/// The address that the browser goes to: the one that was asked for, if it is registered letter
/// for letter, with the state that the client gave.
pub open spec fn location(
    presented: Option<Seq<char>>,
    registered: Option<Seq<Seq<char>>>,
    state: Option<Seq<char>>,
) -> Option<Seq<char>> {
    match (presented, registered) {
        (Some(uri), Some(list)) => if list.contains(uri) {
            Some(util::with_optional(uri, "state"@, state))
        } else {
            None
        },
        _ => None,
    }
}

/// The address that the browser goes to. `registered` are those of the client, where it is still
/// there.
pub fn validated_redirect(params: &LogoutParams, registered: &Option<Vec<String>>) -> (r: Option<
    String,
>)
    ensures
        text::opt_text(r) == location(
            text::opt_text(params.post_logout_redirect_uri),
            match *registered {
                Some(list) => Some(text::texts(list@)),
                None => None,
            },
            text::opt_text(params.state),
        ),
{
    match (&params.post_logout_redirect_uri, registered) {
        (Some(presented), Some(list)) => {
            if !text::list_holds(list, presented.as_str()) {
                return None;
            }
            Some(util::append_query(presented.as_str(), "state", hints::borrowed(&params.state)))
        },
        _ => None,
    }
}

/// A redirect that clears the cookie of the session. With a location or a cookie that cannot be sent
/// there is none.
pub open spec fn redirect_clearing(location: Seq<char>, clear_cookie: Seq<char>) -> reply::ReplyView {
    if reply::sendable(location) && reply::sendable(clear_cookie) {
        reply::ReplyView {
            status: 303,
            headers: seq![
                ("location"@, location),
                ("set-cookie"@, clear_cookie),
                ("cache-control"@, "no-store"@),
                ("referrer-policy"@, "no-referrer"@),
            ],
            body: Seq::empty(),
        }
    } else {
        reply::failure()
    }
}

/// A redirect that clears the cookie of the session.
pub fn logout_redirect(location: &str, clear_cookie: &str) -> (r: Reply)
    ensures
        r@ == redirect_clearing(location@, clear_cookie@),
{
    if !reply::is_sendable(location) || !reply::is_sendable(clear_cookie) {
        return reply::fail();
    }
    let mut headers: Vec<(String, String)> = Vec::new();
    reply::add_header(&mut headers, "location", location);
    reply::add_header(&mut headers, "set-cookie", clear_cookie);
    reply::add_header(&mut headers, "cache-control", "no-store");
    reply::add_header(&mut headers, "referrer-policy", "no-referrer");
    let r = Reply { status: 303, headers, body: String::new() };
    assert(r@ =~= redirect_clearing(location@, clear_cookie@));
    r
}

/// The fields that the page which asks carries over, in order.
pub open spec fn carried(params: LogoutParams) -> Seq<(Seq<char>, Seq<char>)> {
    seq![
        ("id_token_hint"@, login::given(text::opt_text(params.id_token_hint))),
        ("client_id"@, login::given(text::opt_text(params.client_id))),
        ("logout_hint"@, login::given(text::opt_text(params.logout_hint))),
        ("state"@, login::given(text::opt_text(params.state))),
        ("ui_locales"@, login::given(text::opt_text(params.ui_locales))),
        (
            "post_logout_redirect_uri"@,
            login::given(text::opt_text(params.post_logout_redirect_uri)),
        ),
    ]
}

/// A parameter as it is carried over: empty where it is left out.
fn carry(v: &mut Vec<(String, String)>, name: &str, value: &Option<String>)
    ensures
        reply::pairs(final(v)@) == reply::pairs(old(v)@).push(
            (name@, login::given(text::opt_text(*value))),
        ),
{
    match value {
        Some(s) => reply::add_header(v, name, s.as_str()),
        None => {
            let empty = String::new();
            assert(empty@ =~= Seq::empty());
            reply::add_header(v, name, empty.as_str())
        },
    }
}

/// The fields of the page which asks.
pub fn confirmation_prompt(params: &LogoutParams) -> (r: Vec<(String, String)>)
    ensures
        reply::pairs(r@) == carried(*params),
{
    let mut v: Vec<(String, String)> = Vec::new();
    carry(&mut v, "id_token_hint", &params.id_token_hint);
    carry(&mut v, "client_id", &params.client_id);
    carry(&mut v, "logout_hint", &params.logout_hint);
    carry(&mut v, "state", &params.state);
    carry(&mut v, "ui_locales", &params.ui_locales);
    carry(&mut v, "post_logout_redirect_uri", &params.post_logout_redirect_uri);
    assert(reply::pairs(v@) =~= carried(*params));
    v
}

/// The event that a session ended by a logout, where it was live.
pub fn revoke_and_signal(tenant: &str, environment: &str, session_id: &str, flipped: bool) -> (r:
    Option<SessionLifecycleEvent>)
    ensures
        match r {
            Some(event) => flipped && event.tenant@ == tenant@ && event.environment@ == environment@
                && event.session_id@ == session_id@ && event.cause
                == SessionSignalCause::LoggedOut && event.successor_session_id is None,
            None => !flipped,
        },
{
    if flipped {
        Some(
            SessionLifecycleEvent {
                tenant: tenant.to_owned(),
                environment: environment.to_owned(),
                session_id: session_id.to_owned(),
                cause: SessionSignalCause::LoggedOut,
                successor_session_id: None,
            },
        )
    } else {
        None
    }
}

// ---------------------------------------------------------------------------
// The request
// ---------------------------------------------------------------------------

/// What is known of a request. What is absent was not done yet.
pub struct LogoutRequest {
    pub params: LogoutParams,
    pub headers: Headers,
    pub self_origin: Option<String>,
    /// The hint, where it verified for the client of the request.
    pub attributed: Option<Option<Attributed>>,
    /// The live session that the hint names.
    pub target: Option<Option<String>>,
    /// The session of the cookie, in the scope of the hint.
    pub cookie_in_scope: Option<String>,
    /// The session of the cookie, in whatever scope.
    pub cookie_declared: Option<String>,
    /// The session was ended, or that failed.
    pub revoked: bool,
    /// The addresses that the client registered, where it is still there.
    pub registered: Option<Option<Vec<String>>>,
}

/// What comes next for a request.
#[derive(Debug, PartialEq, Eq)]
pub enum LogoutStep {
    /// Verify the hint, for this client.
    VerifyHint { hint: String, client_id: String },
    /// Find the session of this name.
    FindSession(String),
    /// End this session, for this cause. Unless `hard_kill` says so, what the user granted for when
    /// they are away lives on.
    Revoke { session: String, cause: SessionSignalCause, hard_kill: bool },
    /// Look up the addresses of this client.
    FindClient(String),
    /// Ask, and change nothing. These fields are carried over.
    Ask(Vec<(String, String)>),
    /// Answer with this notice.
    Refuse(Notice),
    /// Show that the session ended, and leave the browser as it is.
    LoggedOutElsewhere,
    /// Show that the session ended, and clear its cookie.
    LoggedOut,
    /// Send the browser here, and clear the cookie.
    Redirect(String),
}

/// The session ends because the user signed out.
pub open spec fn signs_out(step: LogoutStep, session: Seq<char>) -> bool {
    step matches LogoutStep::Revoke { session: s, cause, hard_kill } && s@ == session && cause
        == SessionSignalCause::LoggedOut && !hard_kill
}

/// What comes next without a hint that names a session.
pub open spec fn without_hint(q: LogoutRequest, is_post: bool, step: LogoutStep) -> bool {
    if !is_post {
        step matches LogoutStep::Ask(fields) && reply::pairs(fields@) == carried(q.params)
    } else if !interaction::same_origin(q.headers@, text::opt_text(q.self_origin)) {
        step matches LogoutStep::Refuse(n) && interaction::says(
            n,
            403,
            "Request blocked"@,
            "This request could not be verified. Start the sign-in from the application again."@,
        )
    } else {
        match q.cookie_declared {
            Some(session) => if q.revoked {
                step is LoggedOut
            } else {
                signs_out(step, session@)
            },
            None => step is LoggedOut,
        }
    }
}

/// The browser is that of the session: its cookie names the same one.
pub open spec fn same_browser(target: Option<Seq<char>>, cookie: Option<Seq<char>>) -> bool {
    target is Some && target == cookie
}

/// What comes next with a hint that names a session: that session ends, whoever asks; the browser
/// goes on only if it is its own.
pub open spec fn with_hint(q: LogoutRequest, client: Seq<char>, sid: Seq<char>, step: LogoutStep) -> bool {
    match q.target {
        None => step matches LogoutStep::FindSession(s) && s@ == sid,
        Some(target) => if target is Some && !q.revoked {
            signs_out(step, target->0@)
        } else if !same_browser(text::opt_text(target), text::opt_text(q.cookie_in_scope)) {
            step is LoggedOutElsewhere
        } else if q.params.post_logout_redirect_uri is None {
            step is LoggedOut
        } else {
            match q.registered {
                None => step matches LogoutStep::FindClient(c) && c@ == client,
                Some(registered) => match location(
                    text::opt_text(q.params.post_logout_redirect_uri),
                    match registered {
                        Some(list) => Some(text::texts(list@)),
                        None => None,
                    },
                    text::opt_text(q.params.state),
                ) {
                    Some(l) => step matches LogoutStep::Redirect(u) && u@ == l,
                    None => step is LoggedOut,
                },
            }
        },
    }
}

/// What comes next for a request of this client: its hint is verified for the client; see
/// [`with_hint`] and [`without_hint`].
pub open spec fn follows_client(
    q: LogoutRequest,
    client: Option<Seq<char>>,
    is_post: bool,
    step: LogoutStep,
) -> bool {
    match q.params.id_token_hint {
        None => without_hint(q, is_post, step),
        Some(hint) => match client {
            None => without_hint(q, is_post, step),
            Some(client) => match q.attributed {
                None => step matches LogoutStep::VerifyHint { hint: h, client_id } && h@ == hint@
                    && client_id@ == client,
                Some(Some(attributed)) => match attributed.sid {
                    Some(sid) => with_hint(q, attributed.client_id@, sid@, step),
                    None => without_hint(q, is_post, step),
                },
                Some(None) => without_hint(q, is_post, step),
            },
        },
    }
}

/// What comes next for a request.
pub open spec fn logout_follows(q: LogoutRequest, is_post: bool, step: LogoutStep) -> bool {
    follows_client(
        q,
        match q.params.id_token_hint {
            Some(hint) => client_of(hint@, text::opt_text(q.params.client_id)),
            None => None,
        },
        is_post,
        step,
    )
}

/// The session ends because the user signed out.
fn sign_out(session: &String) -> (r: LogoutStep)
    ensures
        signs_out(r, session@),
{
    LogoutStep::Revoke {
        session: session.clone(),
        cause: SessionSignalCause::LoggedOut,
        hard_kill: false,
    }
}

/// The step behind [`without_hint`].
fn unattributed(q: &LogoutRequest, is_post: bool) -> (r: LogoutStep)
    ensures
        without_hint(*q, is_post, r),
{
    if !is_post {
        return LogoutStep::Ask(confirmation_prompt(&q.params));
    }
    if !interaction::same_origin_ok(&q.headers, hints::borrowed(&q.self_origin)) {
        return LogoutStep::Refuse(interaction::forbidden_page());
    }
    match &q.cookie_declared {
        Some(session) => if q.revoked {
            LogoutStep::LoggedOut
        } else {
            sign_out(session)
        },
        None => LogoutStep::LoggedOut,
    }
}

/// The step behind [`with_hint`].
fn attributed(q: &LogoutRequest, client: &String, sid: &String) -> (r: LogoutStep)
    ensures
        with_hint(*q, client@, sid@, r),
{
    let target = match &q.target {
        None => return LogoutStep::FindSession(sid.clone()),
        Some(target) => target,
    };
    let own: bool = match (target, &q.cookie_in_scope) {
        (Some(session), Some(cookie)) => text::same(session.as_str(), cookie.as_str()),
        _ => false,
    };
    match target {
        Some(session) => if !q.revoked {
            return sign_out(session);
        },
        None => {},
    }
    if !own {
        return LogoutStep::LoggedOutElsewhere;
    }
    if q.params.post_logout_redirect_uri.is_none() {
        return LogoutStep::LoggedOut;
    }
    match &q.registered {
        None => LogoutStep::FindClient(client.clone()),
        Some(registered) => match validated_redirect(&q.params, registered) {
            Some(location) => LogoutStep::Redirect(location),
            None => LogoutStep::LoggedOut,
        },
    }
}

/// What comes next for a request of this client, from what is known of it.
pub fn handle_client(q: &LogoutRequest, client: Option<String>, is_post: bool) -> (r: LogoutStep)
    ensures
        follows_client(*q, text::opt_text(client), is_post, r),
{
    let hint = match &q.params.id_token_hint {
        None => return unattributed(q, is_post),
        Some(hint) => hint,
    };
    let client = match client {
        None => return unattributed(q, is_post),
        Some(client) => client,
    };
    match &q.attributed {
        None => LogoutStep::VerifyHint { hint: hint.clone(), client_id: client },
        Some(None) => unattributed(q, is_post),
        Some(Some(a)) => match &a.sid {
            Some(sid) => attributed(q, &a.client_id, sid),
            None => unattributed(q, is_post),
        },
    }
}

/// What comes next for a request, from what is known of it. `is_post` says that it is a form, and
/// not a link.
pub fn handle(q: &LogoutRequest, is_post: bool) -> (r: LogoutStep)
    ensures
        logout_follows(*q, is_post, r),
{
    let client: Option<String> = match &q.params.id_token_hint {
        Some(hint) => attribute(hint.as_str(), hints::borrowed(&q.params.client_id)),
        None => None,
    };
    handle_client(q, client, is_post)
}

/// What comes next for a link.
pub fn end_session_get(q: &LogoutRequest) -> (r: LogoutStep)
    ensures
        logout_follows(*q, false, r),
{
    handle(q, false)
}

/// What comes next for a form.
pub fn end_session_post(q: &LogoutRequest) -> (r: LogoutStep)
    ensures
        logout_follows(*q, true, r),
{
    handle(q, true)
}

// ---------------------------------------------------------------------------
// Laws
// ---------------------------------------------------------------------------

/// A request with a hint that names a session ends that session or none, whatever cookie the
/// browser presents.
pub proof fn law_a_hint_ends_only_its_own_session(q: LogoutRequest, is_post: bool, step: LogoutStep)
    requires
        logout_follows(q, is_post, step),
        step is Revoke,
        q.params.id_token_hint is Some,
        client_of(q.params.id_token_hint->0@, text::opt_text(q.params.client_id)) is Some,
        q.attributed matches Some(Some(a)) && a.sid is Some,
    ensures
        q.target matches Some(Some(session)) && step->session@ == session@,
{
}

/// Signing out spares what the user granted for when they are away, and never ends a session for
/// another cause.
pub proof fn law_signing_out_spares_offline_access(q: LogoutRequest, is_post: bool, step: LogoutStep)
    requires
        logout_follows(q, is_post, step),
        step is Revoke,
    ensures
        !step->hard_kill,
        step->cause == SessionSignalCause::LoggedOut,
{
}

/// A link without a hint that names a session changes nothing: it asks.
pub proof fn law_a_bare_link_changes_nothing(q: LogoutRequest, step: LogoutStep)
    requires
        logout_follows(q, false, step),
        q.params.id_token_hint is None || q.attributed == Some(None::<Attributed>) || (
        q.attributed matches Some(Some(a)) && a.sid is None),
    ensures
        step is Ask,
{
}

/// A browser is sent on only by a hint that verified, only where its own session ended, and only
/// to an address that the client registered, with the state that it gave.
pub proof fn law_a_redirect_is_registered_and_earned(q: LogoutRequest, is_post: bool, step: LogoutStep)
    requires
        logout_follows(q, is_post, step),
        step is Redirect,
    ensures
        q.attributed matches Some(Some(a)) && a.sid is Some,
        q.target matches Some(Some(session)) && q.cookie_in_scope matches Some(cookie) && cookie@
            == session@,
        q.params.post_logout_redirect_uri matches Some(uri) && q.registered matches Some(Some(list))
            && text::texts(list@).contains(uri@) && step->Redirect_0@ == util::with_optional(
            uri@,
            "state"@,
            text::opt_text(q.params.state),
        ),
{
}

/// The browser of another session is left as it is: neither is its cookie cleared, nor is it sent
/// anywhere.
pub proof fn law_another_browser_is_left_alone(q: LogoutRequest, is_post: bool, step: LogoutStep)
    requires
        logout_follows(q, is_post, step),
        q.attributed matches Some(Some(a)) && a.sid is Some,
        q.params.id_token_hint is Some,
        client_of(q.params.id_token_hint->0@, text::opt_text(q.params.client_id)) is Some,
        q.target matches Some(target) && !same_browser(
            text::opt_text(target),
            text::opt_text(q.cookie_in_scope),
        ),
    ensures
        step is Revoke || step is LoggedOutElsewhere,
{
}

/// The client that registered the address hears of it: a verified hint that names a session which
/// ended, in the browser of that session, sends the browser to the address that was asked for,
/// wherever it stands among those that the client registered, and with the state that it gave.
pub proof fn law_a_registered_address_is_gone_to(
    q: LogoutRequest,
    is_post: bool,
    step: LogoutStep,
    hint: Attributed,
    list: Vec<String>,
    i: int,
)
    requires
        logout_follows(q, is_post, step),
        q.params.id_token_hint is Some,
        client_of(q.params.id_token_hint->0@, text::opt_text(q.params.client_id)) is Some,
        q.attributed == Some(Some(hint)),
        hint.sid is Some,
        q.target matches Some(Some(session)) && (q.cookie_in_scope matches Some(cookie) && cookie@
            == session@),
        q.revoked,
        q.registered == Some(Some(list)),
        0 <= i < list@.len(),
        q.params.post_logout_redirect_uri matches Some(uri) && uri@ == list@[i]@,
    ensures
        step is Redirect,
        q.params.state is None ==> step->Redirect_0@ == list@[i]@,
        q.params.state matches Some(state) ==> {
            let uri = list@[i]@;
            let to = step->Redirect_0@;
            &&& to.len() > uri.len()
            &&& to.take(uri.len() as int) == uri
            &&& !uri.contains('?') ==> util::query_value(text::behind(to, '?'), "state"@) == Some(
                state@,
            )
        },
{
    let uri = list@[i]@;
    assert(text::texts(list@)[i] == uri);
    assert(text::texts(list@).contains(uri));
    if q.params.state is Some {
        util::law_a_parameter_is_added_to_a_url(uri, "state"@, q.params.state->0@);
        reveal_strlit("state");
        assert(!"state"@.contains('&') && !"state"@.contains('='));
    }
}

/// An address that the client did not register is not gone to, nor is any without one: the browser
/// of the session sees that it ended.
pub proof fn law_an_unregistered_address_is_not_gone_to(
    q: LogoutRequest,
    is_post: bool,
    step: LogoutStep,
    hint: Attributed,
)
    requires
        logout_follows(q, is_post, step),
        q.params.id_token_hint is Some,
        client_of(q.params.id_token_hint->0@, text::opt_text(q.params.client_id)) is Some,
        q.attributed == Some(Some(hint)),
        hint.sid is Some,
        q.target matches Some(Some(session)) && (q.cookie_in_scope matches Some(cookie) && cookie@
            == session@),
        q.revoked,
        q.registered is Some,
        q.params.post_logout_redirect_uri is None || q.registered == Some(None::<Vec<String>>) || (
        q.registered matches Some(Some(list)) && (forall|i: int|
            0 <= i < list@.len() ==> #[trigger] list@[i]@ != q.params.post_logout_redirect_uri->0@)),
    ensures
        step is LoggedOut,
{
    if q.registered matches Some(Some(list)) {
        let list = q.registered->0->0;
        if q.params.post_logout_redirect_uri is Some {
            let uri = q.params.post_logout_redirect_uri->0@;
            if text::texts(list@).contains(uri) {
                let k = choose|k: int|
                    0 <= k < text::texts(list@).len() && text::texts(list@)[k] == uri;
                assert(list@[k]@ == uri);
            }
        }
    }
}

/// A request with a hint goes its way: the hint is verified for its client, the session that it
/// names is looked up, then ended, and then, in its own browser, the addresses of that client are
/// looked up where one was asked for.
pub proof fn law_a_hint_goes_its_way(
    q: LogoutRequest,
    is_post: bool,
    step: LogoutStep,
    client: Seq<char>,
)
    requires
        logout_follows(q, is_post, step),
        q.params.id_token_hint is Some,
        client_of(q.params.id_token_hint->0@, text::opt_text(q.params.client_id)) == Some(client),
    ensures
        q.attributed is None ==> (step matches LogoutStep::VerifyHint { hint, client_id } && hint@
            == q.params.id_token_hint->0@ && client_id@ == client),
        q.attributed matches Some(Some(a)) ==> (a.sid matches Some(sid) ==> {
            &&& q.target is None ==> (step matches LogoutStep::FindSession(s) && s@ == sid@)
            &&& (q.target matches Some(Some(session)) ==> (!q.revoked ==> (step matches LogoutStep::Revoke {
                session: s,
                cause,
                hard_kill,
            } && s@ == session@ && cause == SessionSignalCause::LoggedOut && !hard_kill)))
            &&& q.target == Some(None::<String>) ==> step is LoggedOutElsewhere
            &&& (q.target matches Some(Some(session)) ==> (q.revoked && !(q.cookie_in_scope matches Some(
                cookie,
            ) && cookie@ == session@) ==> step is LoggedOutElsewhere))
            &&& (q.target matches Some(Some(session)) ==> (q.revoked && (q.cookie_in_scope matches Some(
                cookie,
            ) && cookie@ == session@) && q.params.post_logout_redirect_uri is Some
                && q.registered is None ==> (step matches LogoutStep::FindClient(c) && c@
                == a.client_id@)))
        }),
{
}

/// Without a hint that names a session a link asks, and carries every parameter over under its own
/// name; a form of our own site ends the session of the browser, and then shows so.
pub proof fn law_without_a_hint_the_browser_decides(
    q: LogoutRequest,
    is_post: bool,
    step: LogoutStep,
)
    requires
        logout_follows(q, is_post, step),
        q.params.id_token_hint is None,
    ensures
        !is_post ==> step is Ask,
        is_post && interaction::same_origin(q.headers@, text::opt_text(q.self_origin)) ==> {
            &&& q.cookie_declared is None ==> step is LoggedOut
            &&& (q.cookie_declared matches Some(session) ==> (q.revoked ==> step is LoggedOut) && (
            !q.revoked ==> (step matches LogoutStep::Revoke { session: s, cause, hard_kill } && s@
                == session@ && cause == SessionSignalCause::LoggedOut && !hard_kill)))
        },
        is_post && !interaction::same_origin(q.headers@, text::opt_text(q.self_origin)) ==> (
        step matches LogoutStep::Refuse(n) && n.status == 403),
        step matches LogoutStep::Ask(fields) ==> {
            let f = reply::pairs(fields@);
            &&& f.len() == 6
            &&& (q.params.state matches Some(s) ==> f.contains(("state"@, s@)))
            &&& (q.params.client_id matches Some(s) ==> f.contains(("client_id"@, s@)))
            &&& (q.params.logout_hint matches Some(s) ==> f.contains(("logout_hint"@, s@)))
            &&& (q.params.ui_locales matches Some(s) ==> f.contains(("ui_locales"@, s@)))
            &&& (q.params.post_logout_redirect_uri matches Some(s) ==> f.contains(
                ("post_logout_redirect_uri"@, s@),
            ))
        },
{
    if step is Ask {
        let f = reply::pairs(step->Ask_0@);
        assert(f[1].0 == "client_id"@);
        assert(f[2].0 == "logout_hint"@);
        assert(f[3].0 == "state"@);
        assert(f[4].0 == "ui_locales"@);
        assert(f[5].0 == "post_logout_redirect_uri"@);
        if q.params.state is Some {
            assert(f[3] == ("state"@, q.params.state->0@));
        }
        if q.params.client_id is Some {
            assert(f[1] == ("client_id"@, q.params.client_id->0@));
        }
        if q.params.logout_hint is Some {
            assert(f[2] == ("logout_hint"@, q.params.logout_hint->0@));
        }
        if q.params.ui_locales is Some {
            assert(f[4] == ("ui_locales"@, q.params.ui_locales->0@));
        }
        if q.params.post_logout_redirect_uri is Some {
            assert(f[5] == (
                "post_logout_redirect_uri"@,
                q.params.post_logout_redirect_uri->0@,
            ));
        }
    }
}

/// A request is for the client that it names, white space around it aside, and otherwise for the
/// first audience of its hint.
pub proof fn law_a_request_is_for_the_client_that_it_names(
    hint: Seq<char>,
    named: Seq<char>,
    claims: serde_json::Value,
    aud: serde_json::Value,
)
    ensures
        named.len() > 0 && !text::white_space(named[0]) && !text::white_space(named.last())
            ==> client_of(hint, Some(named)) == Some(named),
        token_credential::unverified_claims(hint) is None ==> client_of(hint, None) is None,
        token_credential::unverified_claims(hint) == Some(claims) && json::json_member(
            claims,
            "aud"@,
        ) is None ==> client_of(hint, None) is None,
        token_credential::unverified_claims(hint) == Some(claims) && json::json_member(
            claims,
            "aud"@,
        ) == Some(aud) ==> (json::json_text(aud) matches Some(s) ==> client_of(hint, None) == Some(
            s,
        )),
        token_credential::unverified_claims(hint) == Some(claims) && json::json_member(
            claims,
            "aud"@,
        ) == Some(aud) && json::json_text(aud) is None ==> (json::json_items(aud) matches Some(
            items,
        ) ==> (items.len() > 0 && json::json_text(items[0]) is Some ==> client_of(hint, None)
            == json::json_text(items[0]))),
{
    if named.len() > 0 && !text::white_space(named[0]) && !text::white_space(named.last()) {
        text::law_trimming_takes_off_white_space(Seq::empty(), named, Seq::empty());
        assert(Seq::empty() + named + Seq::empty() =~= named);
    }
    if json::json_items(aud) is Some {
        let items = json::json_items(aud)->0;
        if items.len() > 0 && json::json_text(items[0]) is Some {
            lemma_first_text(items);
        }
    }
}

proof fn lemma_first_text(items: Seq<serde_json::Value>)
    requires
        items.len() > 0,
        json::json_text(items[0]) is Some,
    ensures
        introspection::texts_among(items).len() > 0,
        introspection::texts_among(items)[0] == json::json_text(items[0])->0,
    decreases items.len(),
{
    if items.len() > 1 {
        assert(items.drop_last()[0] == items[0]);
        lemma_first_text(items.drop_last());
    } else {
        assert(items.drop_last().len() == 0);
        assert(introspection::texts_among(items.drop_last()).len() == 0);
    }
}

/// The redirect goes to the address, takes the cookie away, and is neither stored nor told to where
/// it leads; an address that cannot be sent is none.
pub proof fn law_a_logout_redirect_clears_the_cookie(to: Seq<char>, clear_cookie: Seq<char>)
    ensures
        ({
            let r = redirect_clearing(to, clear_cookie);
            &&& reply::sendable(to) && reply::sendable(clear_cookie) ==> r.status == 303
                && r.headers.contains(("location"@, to)) && r.headers.contains(
                ("set-cookie"@, clear_cookie),
            ) && r.headers.contains(("cache-control"@, "no-store"@)) && r.headers.contains(
                ("referrer-policy"@, "no-referrer"@),
            ) && r.body.len() == 0
            &&& !(reply::sendable(to) && reply::sendable(clear_cookie)) ==> r.status == 500
                && r.headers.len() == 0
        }),
{
    let r = redirect_clearing(to, clear_cookie);
    if reply::sendable(to) && reply::sendable(clear_cookie) {
        assert(r.headers[0] == ("location"@, to));
        assert(r.headers[1] == ("set-cookie"@, clear_cookie));
        assert(r.headers[2] == ("cache-control"@, "no-store"@));
        assert(r.headers[3] == ("referrer-policy"@, "no-referrer"@));
    }
}

/// The page that asks carries over each parameter under its own name and as it was given, and empty
/// where it was left out.
pub proof fn law_the_page_carries_each_parameter_over(params: LogoutParams)
    ensures
        carried(params).len() == 6,
        carried(params)[0].0 == "id_token_hint"@ && carried(params)[0].1 == (match params.id_token_hint {
            Some(given) => given@,
            None => Seq::empty(),
        }),
        carried(params)[1].0 == "client_id"@ && carried(params)[1].1 == (match params.client_id {
            Some(given) => given@,
            None => Seq::empty(),
        }),
        carried(params)[2].0 == "logout_hint"@ && carried(params)[2].1 == (match params.logout_hint {
            Some(given) => given@,
            None => Seq::empty(),
        }),
        carried(params)[3].0 == "state"@ && carried(params)[3].1 == (match params.state {
            Some(given) => given@,
            None => Seq::empty(),
        }),
        carried(params)[4].0 == "ui_locales"@ && carried(params)[4].1 == (match params.ui_locales {
            Some(given) => given@,
            None => Seq::empty(),
        }),
        carried(params)[5].0 == "post_logout_redirect_uri"@ && carried(params)[5].1 == (match params.post_logout_redirect_uri {
            Some(given) => given@,
            None => Seq::empty(),
        }),
{
}

} // verus!
