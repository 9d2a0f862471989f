//! The forward-auth check endpoint.
//!
//! A reverse proxy calls it before it serves a request. The request to be decided is not the
//! check request but the one that its headers describe; what cannot be established about it is
//! refused. An allow carries the identity, a denial nothing, and a step-up is a challenge that
//! the caller can answer.

use vstd::prelude::*;

use crate::forward_auth;
use crate::forward_auth::{DialectError, Identity, ProxyHop};
use crate::forward_auth_rules::ForwardAuthRuntime;
use crate::reply;
use crate::reply::Reply;
use crate::rules;
use crate::rules::{Action, RequestFacts};
use crate::text;

verus! {

/// The header that carries the names which the proxy must delete from the forwarded request.
pub const MUST_DELETE_HEADER: &'static str = "x-ironauth-must-delete";

/// The header of a challenge.
pub const CHALLENGE_HEADER: &'static str = "www-authenticate";

/// What a check request comes to before the session is known.
pub enum CheckStep {
    /// The answer.
    Answer(Reply),
    /// The request is described. The session of the caller decides the rest.
    Decide(RequestFacts, Vec<String>),
}

/// An answer of a status alone.
pub open spec fn bare(status: u16) -> reply::ReplyView {
    reply::ReplyView { status, headers: Seq::empty(), body: Seq::empty() }
}

/// An answer of a status alone.
pub fn status(code: u16) -> (r: Reply)
    ensures
        r@ == bare(code),
{
    let r = Reply { status: code, headers: Vec::new(), body: String::new() };
    assert(r@ =~= bare(code));
    r
}

/// The path of the check endpoint of a tenant's environment.
pub open spec fn check_path(tenant: Seq<char>, environment: Seq<char>) -> Seq<char> {
    "/t/"@ + tenant + "/e/"@ + environment + "/forward-auth"@
}

/// The hop of a check request.
pub open spec fn hop_of(trusted: bool) -> ProxyHop {
    if trusted {
        ProxyHop::Trusted
    } else {
        ProxyHop::Untrusted
    }
}

/// The first half of a check: without a surface, and without such a tenant, nothing is here; a
/// hop that is not trusted is forbidden, and a request that cannot be established is bad.
pub fn check(
    runtime: Option<&ForwardAuthRuntime>,
    scope_known: bool,
    tenant_id: &str,
    environment_id: &str,
    hop_trusted: bool,
    method: &str,
    headers: &[(String, String)],
) -> (r: CheckStep)
    ensures
        match runtime {
            None => r matches CheckStep::Answer(a) && a@ == bare(404),
            Some(surface) => if !scope_known {
                r matches CheckStep::Answer(a) && a@ == bare(404)
            } else {
                match surface.spec_dialect().described(
                    hop_of(hop_trusted),
                    method@,
                    check_path(tenant_id@, environment_id@),
                    reply::pairs(headers@),
                ) {
                    Err(e) => r matches CheckStep::Answer(a) && a@ == bare(
                        if e is UntrustedHop {
                            403
                        } else {
                            400
                        },
                    ),
                    Ok(d) => r matches CheckStep::Decide(facts, names) && facts@ == (
                    rules::FactsView {
                        method: d.method,
                        host: d.host,
                        path: d.path,
                        headers: forward_auth::unreserved(
                            forward_auth::combined(reply::pairs(headers@)),
                        ),
                        ..rules::no_facts()
                    }) && forward_auth::lists_reserved(
                        text::texts(names@),
                        forward_auth::combined(reply::pairs(headers@)),
                    ),
                }
            },
        },
{
    let surface = match runtime {
        Some(surface) => surface,
        None => return CheckStep::Answer(status(404)),
    };
    if !scope_known {
        return CheckStep::Answer(status(404));
    }
    let hop: ProxyHop = if hop_trusted {
        ProxyHop::Trusted
    } else {
        ProxyHop::Untrusted
    };
    let mut path: String = "/t/".to_owned();
    path.append(tenant_id);
    path.append("/e/");
    path.append(environment_id);
    path.append("/forward-auth");
    match surface.dialect().describe(hop, method, path.as_str(), headers) {
        Ok(described) => CheckStep::Decide(described.0, described.1),
        Err(DialectError::UntrustedHop) => CheckStep::Answer(status(403)),
        Err(_) => CheckStep::Answer(status(400)),
    }
}

/// The challenge of a step-up.
pub open spec fn challenge(acr: Seq<char>) -> Seq<char> {
    "Bearer error=\"insufficient_user_authentication\", acr_values=\""@ + acr + "\""@
}

/// The answer to a decision.
pub open spec fn answer(
    action: rules::ActionView,
    upstream: Seq<(Seq<char>, Seq<char>)>,
    must_delete: Seq<Seq<char>>,
) -> reply::ReplyView {
    reply::ReplyView {
        status: match action {
            rules::ActionView::Allow => 200,
            rules::ActionView::Deny => 403,
            rules::ActionView::StepUp { acr } => 401,
        },
        headers: match action {
            rules::ActionView::Allow => upstream,
            rules::ActionView::Deny => Seq::empty(),
            rules::ActionView::StepUp { acr } => seq![(CHALLENGE_HEADER@, challenge(acr))],
        } + if must_delete.len() == 0 {
            Seq::empty()
        } else {
            seq![(MUST_DELETE_HEADER@, text::join(must_delete, ", "@))]
        },
        body: Seq::empty(),
    }
}

/// The identity of a session's subject at this surface: the subject and nothing else.
pub fn session_identity(subject: &str) -> (r: Identity)
    ensures
        r.user@ == subject@,
        r.groups@.len() == 0,
        r.roles@.len() == 0,
        r.email is None,
        r.name is None,
        r.acr is None,
{
    Identity {
        user: subject.to_owned(),
        groups: Vec::new(),
        roles: Vec::new(),
        email: None,
        name: None,
        acr: None,
    }
}

/// The second half of a check: decides the described request for the identity of the session, if
/// there is one.
pub fn decide(
    runtime: &ForwardAuthRuntime,
    facts: RequestFacts,
    must_delete: Vec<String>,
    identity: Option<&Identity>,
) -> (r: Reply)
    ensures
        r@ == answer(
            forward_auth::surface_decision(runtime.set(), facts@, identity).action,
            forward_auth::surface_headers(runtime.set(), facts@, identity),
            text::texts(must_delete@),
        ),
{
    let outcome = runtime.forward_auth().evaluate(facts, identity);
    let code: u16 = match &outcome.decision.action {
        Action::Allow => 200,
        Action::Deny => 403,
        Action::StepUp { .. } => 401,
    };
    let mut headers: Vec<(String, String)> = match &outcome.decision.action {
        Action::Allow => outcome.upstream_headers,
        Action::Deny => Vec::new(),
        Action::StepUp { acr } => {
            let mut value: String =
                "Bearer error=\"insufficient_user_authentication\", acr_values=\"".to_owned();
            value.append(acr.as_str());
            value.append("\"");
            let mut list: Vec<(String, String)> = Vec::new();
            reply::add_header(&mut list, CHALLENGE_HEADER, value.as_str());
            assert(reply::pairs(list@) =~= seq![(CHALLENGE_HEADER@, challenge(acr@))]);
            list
        },
    };
    assert(outcome.decision.action is Deny ==> reply::pairs(headers@) =~= Seq::empty());
    let ghost first = reply::pairs(headers@);
    if must_delete.len() > 0 {
        let names: String = text::joined(&must_delete, ", ");
        reply::add_header(&mut headers, MUST_DELETE_HEADER, names.as_str());
        assert(reply::pairs(headers@) =~= first + seq![
            (MUST_DELETE_HEADER@, text::join(text::texts(must_delete@), ", "@)),
        ]);
    } else {
        assert(first + Seq::<(Seq<char>, Seq<char>)>::empty() =~= first);
    }
    Reply { status: code, headers, body: String::new() }
}

/// The names reserved for the authenticator, for an operator who configures a proxy.
pub fn trusted_headers() -> (r: Vec<&'static str>)
    ensures
        crate::step_up::strs(r@) == forward_auth::trusted_names(),
{
    forward_auth::trusted_header_names()
}

// ---------------------------------------------------------------------------
// Laws
// ---------------------------------------------------------------------------

/// Only a request that is allowed is answered with success, and only such an answer says who the
/// caller is: any other carries at most a challenge and the names to delete.
pub proof fn law_only_an_allow_tells_who_the_caller_is(
    action: rules::ActionView,
    upstream: Seq<(Seq<char>, Seq<char>)>,
    must_delete: Seq<Seq<char>>,
)
    ensures
        answer(action, upstream, must_delete).status == 200 <==> action is Allow,
        !(action is Allow) ==> forall|i: int|
            0 <= i < answer(action, upstream, must_delete).headers.len() ==> {
                let name = (#[trigger] answer(action, upstream, must_delete).headers[i]).0;
                name == CHALLENGE_HEADER@ || name == MUST_DELETE_HEADER@
            },
{
}

/// A request that is allowed goes through with who the caller is; one that is denied is forbidden; a
/// step-up asks for the class. Any of them names what the proxy must delete.
pub proof fn law_an_answer_says_what_was_decided(
    action: rules::ActionView,
    upstream: Seq<(Seq<char>, Seq<char>)>,
    must_delete: Seq<Seq<char>>,
)
    ensures
        ({
            let a = answer(action, upstream, must_delete);
            let n: int = if must_delete.len() == 0 {
                0
            } else {
                1
            };
            &&& a.body.len() == 0
            &&& action is Allow ==> a.status == 200 && a.headers.len() == upstream.len() + n
                && a.headers.take(upstream.len() as int) == upstream
            &&& action is Deny ==> a.status == 403 && a.headers.len() == n
            &&& (action matches rules::ActionView::StepUp { acr } ==> a.status == 401
                && a.headers.len() == 1 + n && a.headers[0] == (
                "www-authenticate"@,
                "Bearer error=\"insufficient_user_authentication\", acr_values=\""@ + acr + "\""@,
            ))
            &&& must_delete.len() > 0 ==> a.headers.last().0 == "x-ironauth-must-delete"@
            &&& must_delete.len() == 1 ==> a.headers.last().1 == must_delete[0]
            &&& must_delete.len() == 2 ==> a.headers.last().1 == must_delete[0] + ", "@
                + must_delete[1]
        }),
{
    let a = answer(action, upstream, must_delete);
    if action is Allow {
        assert(a.headers.take(upstream.len() as int) =~= upstream);
    }
    if must_delete.len() == 2 {
        assert(must_delete.drop_last() =~= seq![must_delete[0]]);
        assert(text::join(must_delete.drop_last(), ", "@) == must_delete[0]);
    }
}

/// A check comes over a trusted hop exactly where its peer is trusted, and it is made under the path
/// of its tenant first and its environment second.
pub proof fn law_a_trusted_peer_is_a_trusted_hop(tenant: Seq<char>, environment: Seq<char>)
    ensures
        hop_of(true) == ProxyHop::Trusted,
        hop_of(false) == ProxyHop::Untrusted,
        check_path(tenant, environment) == "/t/"@ + tenant + "/e/"@ + environment + "/forward-auth"@,
        challenge(tenant) == "Bearer error=\"insufficient_user_authentication\", acr_values=\""@ + tenant
            + "\""@,
{
}

} // verus!
