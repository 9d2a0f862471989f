//! Accepting an invitation.
//!
//! The token of the invitation is all that authenticates. A token that is good for nothing is
//! answered in one way, whatever the reason, and an invitation is accepted once.

use vstd::prelude::*;

use crate::json;
use crate::reply;
use crate::reply::Reply;
use crate::scope_map::Scope;
use crate::text;

verus! {

/// The request to accept an invitation.
pub struct AcceptInvitationBody {
    pub token: String,
    /// The password to set, where the invitation asks for one.
    pub password: Option<String>,
}

/// An invitation that can still be accepted.
#[derive(Debug, PartialEq, Eq)]
pub struct PendingInvitation {
    pub user_id: String,
    /// It enrols a password.
    pub requires_password: bool,
}

/// An invitation that was accepted.
#[derive(Debug, PartialEq, Eq)]
pub struct AcceptedInvitation {
    pub user_id: String,
    pub credential_type: String,
}

/// Why an invitation was not accepted.
#[derive(Debug, Clone, Copy, PartialEq, Eq, Structural)]
pub enum AcceptError {
    /// There is no such invitation any more.
    NotFound,
    /// The user is not one that waits for it.
    Conflict,
    /// Something failed.
    Fault,
}

/// What is known of a request to accept. What is absent was not done yet; an `Err` is a step that
/// failed.
pub struct AcceptRequest {
    pub scope: Option<Scope>,
    pub over_quota: Option<bool>,
    pub body: AcceptInvitationBody,
    /// The invitation of the token.
    pub pending: Option<Result<Option<PendingInvitation>, ()>>,
    /// The hash of the password.
    pub hashed: Option<Result<String, ()>>,
    pub accepted: Option<Result<AcceptedInvitation, AcceptError>>,
}

/// What comes next for a request to accept.
#[derive(Debug, PartialEq, Eq)]
pub enum AcceptStep {
    /// Answer that there is no such place.
    NotFound,
    /// Charge the quota.
    ChargeQuota,
    /// Answer that the tenant is over its quota.
    OverQuota,
    /// Find the invitation of this token.
    Resolve(String),
    /// Hash this password.
    HashPassword(String),
    /// Accept the invitation, for this user, with this password if any.
    Accept { user_id: String, token: String, password_hash: Option<String> },
    /// Answer with this.
    Answer(Reply),
}

/// The answer with this status and these members. It is not to be stored.
pub open spec fn response(status: u16, members: Seq<(Seq<char>, json::FieldView)>) -> reply::ReplyView {
    reply::ReplyView {
        status,
        headers: seq![("content-type"@, "application/json"@), ("cache-control"@, "no-store"@)],
        body: json::json_object_text(members),
    }
}

/// The answer with this status and these members.
pub fn json_response(status: u16, members: &Vec<(String, json::Field)>) -> (r: Reply)
    ensures
        r@ == response(status, json::members_view(members@)),
{
    let mut headers = reply::content_type("application/json");
    reply::add_header(&mut headers, "cache-control", "no-store");
    let r = Reply { status, headers, body: json::object_text(members) };
    assert(r@.headers =~= seq![
        ("content-type"@, "application/json"@),
        ("cache-control"@, "no-store"@),
    ]);
    r
}

/// The members of an answer that says what is wrong.
pub open spec fn error_members(error: Seq<char>, description: Seq<char>) -> Seq<
    (Seq<char>, json::FieldView),
> {
    seq![
        ("error"@, json::FieldView::Text(error)),
        ("error_description"@, json::FieldView::Text(description)),
    ]
}

/// The members of an answer that says what is wrong.
fn error_fields(error: &str, description: &str) -> (r: Vec<(String, json::Field)>)
    ensures
        json::members_view(r@) == error_members(error@, description@),
{
    let mut v: Vec<(String, json::Field)> = Vec::new();
    json::put(&mut v, "error", json::Field::Text(error.to_owned()));
    json::put(&mut v, "error_description", json::Field::Text(description.to_owned()));
    assert(json::members_view(v@) =~= error_members(error@, description@));
    v
}

/// The token is good for nothing.
pub open spec fn uniform() -> reply::ReplyView {
    response(
        404,
        error_members(
            "invalid_invitation"@,
            "This invitation link is invalid or has expired."@,
        ),
    )
}

/// The answer to a token that is good for nothing, whatever the reason.
pub fn uniform_not_found() -> (r: Reply)
    ensures
        r@ == uniform(),
{
    json_response(
        404,
        &error_fields("invalid_invitation", "This invitation link is invalid or has expired."),
    )
}

/// A password has to come with it.
pub open spec fn asks_password() -> reply::ReplyView {
    response(
        400,
        error_members(
            "password_required"@,
            "This invitation enrolls a password; provide one to continue."@,
        ),
    )
}

/// The answer to a good token without the password that it asks for.
pub fn password_required() -> (r: Reply)
    ensures
        r@ == asks_password(),
{
    json_response(
        400,
        &error_fields(
            "password_required",
            "This invitation enrolls a password; provide one to continue.",
        ),
    )
}

/// Something failed.
pub open spec fn fault() -> reply::ReplyView {
    response(
        500,
        error_members("server_error"@, "The request could not be processed."@),
    )
}

/// The answer where something failed.
pub fn server_error() -> (r: Reply)
    ensures
        r@ == fault(),
{
    json_response(500, &error_fields("server_error", "The request could not be processed."))
}

/// The members of the answer to an invitation that was accepted.
pub open spec fn accepted_members(user: Seq<char>, credential: Seq<char>) -> Seq<
    (Seq<char>, json::FieldView),
> {
    seq![
        ("accepted"@, json::FieldView::Bool(true)),
        ("user_id"@, json::FieldView::Text(user)),
        ("credential_type"@, json::FieldView::Text(credential)),
    ]
}

/// The members of the answer to an invitation that was accepted.
pub fn accepted_fields(accepted: &AcceptedInvitation) -> (r: Vec<(String, json::Field)>)
    ensures
        json::members_view(r@) == accepted_members(accepted.user_id@, accepted.credential_type@),
{
    let mut v: Vec<(String, json::Field)> = Vec::new();
    json::put(&mut v, "accepted", json::Field::Bool(true));
    json::put(&mut v, "user_id", json::Field::Text(accepted.user_id.clone()));
    json::put(&mut v, "credential_type", json::Field::Text(accepted.credential_type.clone()));
    assert(json::members_view(v@) =~= accepted_members(
        accepted.user_id@,
        accepted.credential_type@,
    ));
    v
}

/// The step is this answer.
pub open spec fn says(step: AcceptStep, reply: reply::ReplyView) -> bool {
    step matches AcceptStep::Answer(r) && r@ == reply
}

/// What comes next once the password is settled.
pub open spec fn after_password(
    q: AcceptRequest,
    pending: PendingInvitation,
    token: Seq<char>,
    hash: Option<Seq<char>>,
    step: AcceptStep,
) -> bool {
    match q.accepted {
        None => step matches AcceptStep::Accept { user_id, token: t, password_hash } && user_id@
            == pending.user_id@ && t@ == token && text::opt_text(password_hash) == hash,
        Some(Ok(accepted)) => says(
            step,
            response(200, accepted_members(accepted.user_id@, accepted.credential_type@)),
        ),
        Some(Err(AcceptError::NotFound)) => says(step, uniform()),
        Some(Err(AcceptError::Conflict)) => says(step, uniform()),
        Some(Err(AcceptError::Fault)) => says(step, fault()),
    }
}

/// What comes next for a request to accept. An invitation that enrols a password needs one that
/// is not empty; one that does not is accepted without, whatever came with it.
pub open spec fn accept_follows(q: AcceptRequest, step: AcceptStep) -> bool {
    let token = text::trim(q.body.token@);
    match q.scope {
        None => step is NotFound,
        Some(_) => match q.over_quota {
            None => step is ChargeQuota,
            Some(true) => step is OverQuota,
            Some(false) => if token.len() == 0 {
                says(step, uniform())
            } else {
                match q.pending {
                    None => step matches AcceptStep::Resolve(t) && t@ == token,
                    Some(Err(_)) => says(step, fault()),
                    Some(Ok(None)) => says(step, uniform()),
                    Some(Ok(Some(pending))) => if !pending.requires_password {
                        after_password(q, pending, token, None, step)
                    } else if q.body.password is None || q.body.password->0@.len() == 0 {
                        says(step, asks_password())
                    } else {
                        match q.hashed {
                            None => step matches AcceptStep::HashPassword(p) && p@
                                == q.body.password->0@,
                            Some(Err(_)) => says(step, fault()),
                            Some(Ok(hash)) => after_password(
                                q,
                                pending,
                                token,
                                Some(hash@),
                                step,
                            ),
                        }
                    },
                }
            },
        },
    }
}

/// The step behind [`after_password`].
fn redeem(q: &AcceptRequest, pending: &PendingInvitation, token: String, hash: Option<String>) -> (r:
    AcceptStep)
    ensures
        after_password(*q, *pending, token@, text::opt_text(hash), r),
{
    match &q.accepted {
        None => AcceptStep::Accept {
            user_id: pending.user_id.clone(),
            token,
            password_hash: hash,
        },
        Some(Ok(accepted)) => AcceptStep::Answer(json_response(200, &accepted_fields(accepted))),
        Some(Err(AcceptError::NotFound)) => AcceptStep::Answer(uniform_not_found()),
        Some(Err(AcceptError::Conflict)) => AcceptStep::Answer(uniform_not_found()),
        Some(Err(AcceptError::Fault)) => AcceptStep::Answer(server_error()),
    }
}

/// What comes next for a request to accept, from what is known of it.
pub fn accept_invitation(q: &AcceptRequest) -> (r: AcceptStep)
    ensures
        accept_follows(*q, r),
{
    if q.scope.is_none() {
        return AcceptStep::NotFound;
    }
    match q.over_quota {
        None => return AcceptStep::ChargeQuota,
        Some(true) => return AcceptStep::OverQuota,
        Some(false) => {},
    }
    let token: String = text::trimmed(q.body.token.as_str());
    if token.as_str().is_empty() {
        return AcceptStep::Answer(uniform_not_found());
    }
    let pending = match &q.pending {
        None => return AcceptStep::Resolve(token),
        Some(Err(_)) => return AcceptStep::Answer(server_error()),
        Some(Ok(None)) => return AcceptStep::Answer(uniform_not_found()),
        Some(Ok(Some(pending))) => pending,
    };
    if !pending.requires_password {
        return redeem(q, pending, token, None);
    }
    let password = match &q.body.password {
        Some(password) => password,
        None => return AcceptStep::Answer(password_required()),
    };
    if password.as_str().is_empty() {
        return AcceptStep::Answer(password_required());
    }
    match &q.hashed {
        None => AcceptStep::HashPassword(password.clone()),
        Some(Err(_)) => AcceptStep::Answer(server_error()),
        Some(Ok(hash)) => redeem(q, pending, token, Some(hash.clone())),
    }
}

// ---------------------------------------------------------------------------
// Laws
// ---------------------------------------------------------------------------

/// A token that was never good, one that no longer is, and one that lost a race are answered
/// alike.
pub proof fn law_bad_tokens_look_alike(q: AcceptRequest, step: AcceptStep)
    requires
        accept_follows(q, step),
        q.scope is Some,
        q.over_quota == Some(false),
        text::trim(q.body.token@).len() == 0 || q.pending == Some(
            Ok::<Option<PendingInvitation>, ()>(None),
        ) || (q.pending matches Some(Ok(Some(_))) && (q.accepted == Some(
            Err::<AcceptedInvitation, AcceptError>(AcceptError::NotFound),
        ) || q.accepted == Some(Err::<AcceptedInvitation, AcceptError>(AcceptError::Conflict)))
            && (q.pending->0->Ok_0->0.requires_password ==> (
        q.hashed matches Some(Ok(_))) && q.body.password is Some && q.body.password->0@.len()
            > 0)),
    ensures
        says(step, uniform()),
{
}

/// An invitation that enrols no password sets none, and one that does sets the hash of the one
/// that came with it.
pub proof fn law_a_password_is_set_only_where_it_is_asked_for(q: AcceptRequest, step: AcceptStep)
    requires
        accept_follows(q, step),
        step is Accept,
    ensures
        q.pending matches Some(Ok(Some(pending))) && (if pending.requires_password {
            q.hashed matches Some(Ok(hash)) && text::opt_text(step->password_hash) == Some(hash@)
        } else {
            step->password_hash is None
        }),
{
}

/// A request to accept takes its steps in order: the scope, the quota, the invitation of the token
/// as it was sent but for the white space around it, and the password where the invitation asks for
/// one. A token without anything in it, and one of no invitation, is good for nothing.
pub proof fn law_a_request_to_accept_goes_its_way(q: AcceptRequest, token: Seq<char>, step: AcceptStep)
    requires
        accept_follows(q, step),
        token == text::trim(q.body.token@),
    ensures
        q.scope is None ==> step is NotFound,
        q.scope is Some && q.over_quota is None ==> step is ChargeQuota,
        q.scope is Some && q.over_quota == Some(true) ==> step is OverQuota,
        q.scope is Some && q.over_quota == Some(false) && token.len() == 0 ==> (
        step matches AcceptStep::Answer(r) && r@.status == 404),
        q.scope is Some && q.over_quota == Some(false) && token.len() > 0 && q.pending is None ==> (
        step matches AcceptStep::Resolve(t) && t@ == token),
        q.scope is Some && q.over_quota == Some(false) && token.len() > 0 && (q.pending matches Some(
            Err(_),
        )) ==> (step matches AcceptStep::Answer(r) && r@.status == 500),
        q.scope is Some && q.over_quota == Some(false) && token.len() > 0 && (q.pending matches Some(
            Ok(None),
        )) ==> (step matches AcceptStep::Answer(r) && r@.status == 404),
{
}

/// An invitation is accepted for the user that it is for, with its token. One that enrols a password
/// asks for it where it is missing or empty, hashes it as it was sent, and is accepted with the
/// hash; any other is accepted without a password. Once it was accepted that is said, of the user
/// and the kind of credential, and where it was not, what a bad token is answered, or a fault.
pub proof fn law_an_invitation_is_accepted_for_its_user(
    q: AcceptRequest,
    pending: PendingInvitation,
    step: AcceptStep,
)
    requires
        accept_follows(q, step),
        q.scope is Some,
        q.over_quota == Some(false),
        text::trim(q.body.token@).len() > 0,
        q.pending == Some(Ok::<Option<PendingInvitation>, ()>(Some(pending))),
    ensures
        pending.requires_password && (q.body.password matches Some(p) ==> p@.len() == 0) ==> (
        step matches AcceptStep::Answer(r) && r@.status == 400),
        pending.requires_password && q.hashed is None ==> (q.body.password matches Some(p) ==> (p@.len()
            > 0 ==> (step matches AcceptStep::HashPassword(sent) && sent@ == p@))),
        pending.requires_password && (q.hashed matches Some(Err(_))) ==> (q.body.password matches Some(
            p,
        ) ==> (p@.len() > 0 ==> (step matches AcceptStep::Answer(r) && r@.status == 500))),
        !pending.requires_password && q.accepted is None ==> (step matches AcceptStep::Accept {
            user_id,
            token,
            password_hash,
        } && user_id@ == pending.user_id@ && token@ == text::trim(q.body.token@) && password_hash is None),
        pending.requires_password && q.accepted is None ==> (q.hashed matches Some(Ok(hash)) ==> (
        q.body.password matches Some(p) ==> (p@.len() > 0 ==> (step matches AcceptStep::Accept {
            user_id,
            token,
            password_hash,
        } && user_id@ == pending.user_id@ && token@ == text::trim(q.body.token@) && (
        password_hash matches Some(h) && h@ == hash@))))),
        !pending.requires_password || ((q.hashed matches Some(Ok(_))) && (q.body.password matches Some(p)
            && p@.len() > 0)) ==> {
            &&& q.accepted matches Some(Ok(accepted)) ==> (step matches AcceptStep::Answer(r)
                && r@.status == 200 && r@.body == json::json_object_text(
                seq![
                    ("accepted"@, json::FieldView::Bool(true)),
                    ("user_id"@, json::FieldView::Text(accepted.user_id@)),
                    ("credential_type"@, json::FieldView::Text(accepted.credential_type@)),
                ],
            ))
            &&& q.accepted matches Some(Err(AcceptError::NotFound)) ==> (
            step matches AcceptStep::Answer(r) && r@.status == 404)
            &&& q.accepted matches Some(Err(AcceptError::Conflict)) ==> (
            step matches AcceptStep::Answer(r) && r@.status == 404)
            &&& q.accepted matches Some(Err(AcceptError::Fault)) ==> (step matches AcceptStep::Answer(r)
                && r@.status == 500)
        },
{
}

/// An answer is a JSON object and is not to be stored. One that says what is wrong has the error
/// first and its description behind it.
pub proof fn law_an_answer_is_not_stored(status: u16, error: Seq<char>, description: Seq<char>)
    ensures
        ({
            let r = response(status, error_members(error, description));
            &&& r.status == status
            &&& r.headers == seq![
                ("content-type"@, "application/json"@),
                ("cache-control"@, "no-store"@),
            ]
            &&& r.body == json::json_object_text(
                seq![
                    ("error"@, json::FieldView::Text(error)),
                    ("error_description"@, json::FieldView::Text(description)),
                ],
            )
        }),
        uniform() == response(
            404,
            error_members(
                "invalid_invitation"@,
                "This invitation link is invalid or has expired."@,
            ),
        ),
        asks_password().body == json::json_object_text(
            error_members(
                "password_required"@,
                "This invitation enrolls a password; provide one to continue."@,
            ),
        ),
        fault().body == json::json_object_text(
            error_members("server_error"@, "The request could not be processed."@),
        ),
{
}

} // verus!
