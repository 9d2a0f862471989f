use ironauth_oidc::invitations::{
    accept_invitation, accepted_fields, json_response, AcceptError, AcceptInvitationBody,
    AcceptRequest, AcceptStep, AcceptedInvitation, PendingInvitation,
};
use ironauth_oidc::reply::Reply;
use ironauth_oidc::scope_map::Scope;
use serde_json::Value;

fn request(requires_password: bool) -> AcceptRequest {
    AcceptRequest {
        scope: Some(Scope::new("tnt_1", "env_1")),
        over_quota: Some(false),
        body: AcceptInvitationBody {
            token: " tok ".to_owned(),
            password: Some("secret".to_owned()),
        },
        pending: Some(Ok(Some(PendingInvitation {
            user_id: "usr_1".to_owned(),
            requires_password,
        }))),
        hashed: None,
        accepted: None,
    }
}

fn reply(q: &AcceptRequest) -> Reply {
    match accept_invitation(q) {
        AcceptStep::Answer(reply) => reply,
        other => panic!("expected an answer, got {other:?}"),
    }
}

fn error(q: &AcceptRequest) -> (u16, String) {
    let reply = reply(q);
    let body: Value = serde_json::from_str(&reply.body).expect("json");
    (reply.status, body["error"].as_str().expect("an error").to_owned())
}

#[test]
fn a_password_invitation_sets_the_hash_of_the_password() {
    let mut q = request(true);
    assert_eq!(accept_invitation(&q), AcceptStep::HashPassword("secret".to_owned()));
    q.hashed = Some(Ok("phc".to_owned()));
    assert_eq!(
        accept_invitation(&q),
        AcceptStep::Accept {
            user_id: "usr_1".to_owned(),
            token: "tok".to_owned(),
            password_hash: Some("phc".to_owned()),
        }
    );
    q.hashed = Some(Err(()));
    assert_eq!(error(&q), (500, "server_error".to_owned()));
    q.body.password = Some(String::new());
    assert_eq!(error(&q), (400, "password_required".to_owned()));
    q.body.password = None;
    assert_eq!(error(&q), (400, "password_required".to_owned()));
}

#[test]
fn a_passkey_invitation_sets_no_password() {
    let q = request(false);
    assert_eq!(
        accept_invitation(&q),
        AcceptStep::Accept {
            user_id: "usr_1".to_owned(),
            token: "tok".to_owned(),
            password_hash: None,
        }
    );
}

#[test]
fn every_bad_token_is_answered_alike() {
    let mut answers = Vec::new();
    let mut blank = request(false);
    blank.body.token = "  ".to_owned();
    answers.push(reply(&blank));
    let mut unknown = request(false);
    unknown.pending = Some(Ok(None));
    answers.push(reply(&unknown));
    for why in [AcceptError::NotFound, AcceptError::Conflict] {
        let mut lost = request(false);
        lost.accepted = Some(Err(why));
        answers.push(reply(&lost));
    }
    for answer in &answers {
        assert_eq!(answer, &answers[0]);
        assert_eq!(answer.status, 404);
    }
    assert_eq!(error(&blank).1, "invalid_invitation");
}

#[test]
fn an_accepted_invitation_names_the_user() {
    let mut q = request(false);
    q.accepted = Some(Ok(AcceptedInvitation {
        user_id: "usr_1".to_owned(),
        credential_type: "passkey".to_owned(),
    }));
    let answer = reply(&q);
    assert_eq!(answer.status, 200);
    assert!(answer
        .headers
        .contains(&("cache-control".to_owned(), "no-store".to_owned())));
    let body: Value = serde_json::from_str(&answer.body).expect("json");
    assert_eq!(body["accepted"], Value::Bool(true));
    assert_eq!(body["user_id"], "usr_1");
    assert_eq!(body["credential_type"], "passkey");
    let same = json_response(
        200,
        &accepted_fields(&AcceptedInvitation {
            user_id: "usr_1".to_owned(),
            credential_type: "passkey".to_owned(),
        }),
    );
    assert_eq!(same, answer);
    q.accepted = Some(Err(AcceptError::Fault));
    assert_eq!(error(&q).0, 500);
}

#[test]
fn an_invitation_is_found_before_anything_else() {
    let mut q = request(true);
    q.pending = None;
    assert_eq!(accept_invitation(&q), AcceptStep::Resolve("tok".to_owned()));
    q.pending = Some(Err(()));
    assert_eq!(error(&q).0, 500);
    q.over_quota = Some(true);
    assert_eq!(accept_invitation(&q), AcceptStep::OverQuota);
    q.over_quota = None;
    assert_eq!(accept_invitation(&q), AcceptStep::ChargeQuota);
    q.scope = None;
    assert_eq!(accept_invitation(&q), AcceptStep::NotFound);
}
