//! Which endpoints are served, and which methods each of them takes.

use vstd::prelude::*;

use crate::flow::transport::FLOW_API_SUBMIT_PATH;
use crate::flow::transport::FLOW_BRAND_ASSET_PATH;
use crate::flow::transport::FLOW_BROWSER_PATH;
use crate::flow::transport::FLOW_CREATE_API_PATH;
use crate::flow::transport::FLOW_STYLESHEET_PATH;
use crate::global_revocation::GLOBAL_TOKEN_REVOCATION_PATH;

verus! {

/// The methods that an endpoint takes.
#[derive(Debug, Clone, Copy, PartialEq, Eq, Structural)]
pub enum Methods {
    Get,
    Post,
    GetPost,
    GetPostOptions,
    GetPutDelete,
}

/// One method.
#[derive(Debug, Clone, Copy, PartialEq, Eq, Structural)]
pub enum Method {
    Get,
    Post,
    Put,
    Delete,
    Options,
}

impl Methods {
    /// The method is one of these.
    pub open spec fn includes(self, method: Method) -> bool {
        match method {
            Method::Get => !(self is Post),
            Method::Post => self is Post || self is GetPost || self is GetPostOptions,
            Method::Options => self is GetPostOptions,
            Method::Put => self is GetPutDelete,
            Method::Delete => self is GetPutDelete,
        }
    }

    /// Whether the method is one of these.
    pub fn takes(self, method: Method) -> (r: bool)
        ensures
            r == self.includes(method),
    {
        match self {
            Methods::Get => match method {
                Method::Get => true,
                _ => false,
            },
            Methods::Post => match method {
                Method::Post => true,
                _ => false,
            },
            Methods::GetPost => match method {
                Method::Get | Method::Post => true,
                _ => false,
            },
            Methods::GetPostOptions => match method {
                Method::Get | Method::Post | Method::Options => true,
                _ => false,
            },
            Methods::GetPutDelete => match method {
                Method::Get | Method::Put | Method::Delete => true,
                _ => false,
            },
        }
    }
}

/// What answers at a path. Together with the method it tells who handles a request.
#[derive(Debug, Clone, Copy, PartialEq, Eq, Structural)]
pub enum Endpoint {
    Authorize,
    Token,
    PushedAuthorization,
    Revoke,
    Introspect,
    EndSession,
    UserInfo,
    Login,
    FederationAuthorize,
    FederationCallback,
    UpstreamToken,
    MfaChallenge,
    Register,
    Recover,
    RecoverCancel,
    Consent,
    DeviceAuthorization,
    DeviceVerification,
    Sessions,
    RevokeSession,
    RevokeOtherSessions,
    TrustedDevices,
    RevokeTrustedDevice,
    RevokeAllTrustedDevices,
    Credentials,
    RemoveCredential,
    ChangePassword,
    RemovePassword,
    LinkedIdentities,
    StartLink,
    RemoveLinkedIdentity,
    RelatedOrigins,
    WebIdentity,
    FedcmConfig,
    FedcmAccounts,
    FedcmAssertion,
    RiskSignals,
    TrustedContactConfirm,
    IdvCallback,
    PasskeyRegisterOptions,
    PasskeyRegisterVerify,
    PasskeyAuthenticateOptions,
    PasskeyAuthenticateVerify,
    PasskeySignupOptions,
    PasskeySignupVerify,
    PasskeyCredentials,
    RenamePasskey,
    RemovePasskey,
    PasskeySignal,
    PasskeyManage,
    TotpEnroll,
    TotpVerifyEnrollment,
    TotpVerify,
    TotpRemove,
    RecoveryCodes,
    RedeemRecoveryCode,
    MfaPlan,
    AcceptInvitation,
    EmailOtpSend,
    EmailOtpVerify,
    MagicSend,
    MagicConfirm,
    MagicConsume,
    PowChallenge,
    SmsOtpSend,
    SmsOtpVerify,
    FlowBrowser,
    FlowApiCreate,
    FlowApiSubmit,
    FlowStylesheet,
    FlowBrandAsset,
    Disavow,
    RegisterClient,
    ManageClient,
    CheckSession,
    GlobalTokenRevocation,
}

/// The endpoints that are always served. What they are for may still be off; then each answers
/// that there is nothing there.
pub const ALWAYS: [(&'static str, Methods, Endpoint); 71] = [
    ("/authorize", Methods::GetPost, Endpoint::Authorize),
    ("/token", Methods::Post, Endpoint::Token),
    ("/par", Methods::Post, Endpoint::PushedAuthorization),
    ("/revoke", Methods::Post, Endpoint::Revoke),
    ("/introspect", Methods::Post, Endpoint::Introspect),
    ("/end_session", Methods::GetPost, Endpoint::EndSession),
    ("/userinfo", Methods::GetPostOptions, Endpoint::UserInfo),
    ("/login", Methods::GetPost, Endpoint::Login),
    (
        "/t/{tenant_id}/e/{environment_id}/federation/{connector_slug}/authorize",
        Methods::Get,
        Endpoint::FederationAuthorize,
    ),
    (
        "/t/{tenant_id}/e/{environment_id}/federation/{connector_slug}/callback",
        Methods::Get,
        Endpoint::FederationCallback,
    ),
    (
        "/t/{tenant_id}/e/{environment_id}/federation/upstream-token",
        Methods::Post,
        Endpoint::UpstreamToken,
    ),
    ("/login/mfa", Methods::GetPost, Endpoint::MfaChallenge),
    ("/register", Methods::GetPost, Endpoint::Register),
    ("/recover", Methods::GetPost, Endpoint::Recover),
    ("/recover/cancel", Methods::GetPost, Endpoint::RecoverCancel),
    ("/consent", Methods::GetPost, Endpoint::Consent),
    ("/device_authorization", Methods::Post, Endpoint::DeviceAuthorization),
    ("/t/{tenant_id}/e/{environment_id}/device", Methods::GetPost, Endpoint::DeviceVerification),
    ("/t/{tenant_id}/e/{environment_id}/account/sessions", Methods::Get, Endpoint::Sessions),
    (
        "/t/{tenant_id}/e/{environment_id}/account/sessions/revoke",
        Methods::Post,
        Endpoint::RevokeSession,
    ),
    (
        "/t/{tenant_id}/e/{environment_id}/account/sessions/revoke-others",
        Methods::Post,
        Endpoint::RevokeOtherSessions,
    ),
    (
        "/t/{tenant_id}/e/{environment_id}/account/trusted-devices",
        Methods::Get,
        Endpoint::TrustedDevices,
    ),
    (
        "/t/{tenant_id}/e/{environment_id}/account/trusted-devices/revoke",
        Methods::Post,
        Endpoint::RevokeTrustedDevice,
    ),
    (
        "/t/{tenant_id}/e/{environment_id}/account/trusted-devices/revoke-all",
        Methods::Post,
        Endpoint::RevokeAllTrustedDevices,
    ),
    (
        "/t/{tenant_id}/e/{environment_id}/account/credentials",
        Methods::GetPost,
        Endpoint::Credentials,
    ),
    (
        "/t/{tenant_id}/e/{environment_id}/account/credentials/remove",
        Methods::Post,
        Endpoint::RemoveCredential,
    ),
    ("/t/{tenant_id}/e/{environment_id}/account/password", Methods::Post, Endpoint::ChangePassword),
    (
        "/t/{tenant_id}/e/{environment_id}/account/password/remove",
        Methods::Post,
        Endpoint::RemovePassword,
    ),
    (
        "/t/{tenant_id}/e/{environment_id}/account/linked-identities",
        Methods::Get,
        Endpoint::LinkedIdentities,
    ),
    (
        "/t/{tenant_id}/e/{environment_id}/account/linked-identities/start",
        Methods::Post,
        Endpoint::StartLink,
    ),
    (
        "/t/{tenant_id}/e/{environment_id}/account/linked-identities/remove",
        Methods::Post,
        Endpoint::RemoveLinkedIdentity,
    ),
    ("/.well-known/webauthn", Methods::Get, Endpoint::RelatedOrigins),
    ("/.well-known/web-identity", Methods::Get, Endpoint::WebIdentity),
    ("/t/{tenant_id}/e/{environment_id}/fedcm/config.json", Methods::Get, Endpoint::FedcmConfig),
    ("/t/{tenant_id}/e/{environment_id}/fedcm/accounts", Methods::Get, Endpoint::FedcmAccounts),
    ("/t/{tenant_id}/e/{environment_id}/fedcm/assertion", Methods::Post, Endpoint::FedcmAssertion),
    ("/t/{tenant_id}/e/{environment_id}/risk/signals", Methods::Post, Endpoint::RiskSignals),
    (
        "/t/{tenant_id}/e/{environment_id}/recover/trusted-contact/confirm",
        Methods::Post,
        Endpoint::TrustedContactConfirm,
    ),
    (
        "/t/{tenant_id}/e/{environment_id}/recover/idv/callback",
        Methods::Post,
        Endpoint::IdvCallback,
    ),
    (
        "/t/{tenant_id}/e/{environment_id}/webauthn/register/options",
        Methods::Post,
        Endpoint::PasskeyRegisterOptions,
    ),
    (
        "/t/{tenant_id}/e/{environment_id}/webauthn/register/verify",
        Methods::Post,
        Endpoint::PasskeyRegisterVerify,
    ),
    (
        "/t/{tenant_id}/e/{environment_id}/webauthn/authenticate/options",
        Methods::Post,
        Endpoint::PasskeyAuthenticateOptions,
    ),
    (
        "/t/{tenant_id}/e/{environment_id}/webauthn/authenticate/verify",
        Methods::Post,
        Endpoint::PasskeyAuthenticateVerify,
    ),
    (
        "/t/{tenant_id}/e/{environment_id}/webauthn/signup/options",
        Methods::Post,
        Endpoint::PasskeySignupOptions,
    ),
    (
        "/t/{tenant_id}/e/{environment_id}/webauthn/signup/verify",
        Methods::Post,
        Endpoint::PasskeySignupVerify,
    ),
    (
        "/t/{tenant_id}/e/{environment_id}/webauthn/credentials",
        Methods::Get,
        Endpoint::PasskeyCredentials,
    ),
    (
        "/t/{tenant_id}/e/{environment_id}/webauthn/credentials/rename",
        Methods::Post,
        Endpoint::RenamePasskey,
    ),
    (
        "/t/{tenant_id}/e/{environment_id}/webauthn/credentials/remove",
        Methods::Post,
        Endpoint::RemovePasskey,
    ),
    ("/t/{tenant_id}/e/{environment_id}/webauthn/signal", Methods::Get, Endpoint::PasskeySignal),
    ("/t/{tenant_id}/e/{environment_id}/webauthn/manage", Methods::Get, Endpoint::PasskeyManage),
    (
        "/t/{tenant_id}/e/{environment_id}/account/mfa/totp/enroll",
        Methods::Post,
        Endpoint::TotpEnroll,
    ),
    (
        "/t/{tenant_id}/e/{environment_id}/account/mfa/totp/verify-enrollment",
        Methods::Post,
        Endpoint::TotpVerifyEnrollment,
    ),
    (
        "/t/{tenant_id}/e/{environment_id}/account/mfa/totp/verify",
        Methods::Post,
        Endpoint::TotpVerify,
    ),
    (
        "/t/{tenant_id}/e/{environment_id}/account/mfa/totp/remove",
        Methods::Post,
        Endpoint::TotpRemove,
    ),
    (
        "/t/{tenant_id}/e/{environment_id}/account/mfa/recovery-codes",
        Methods::Post,
        Endpoint::RecoveryCodes,
    ),
    (
        "/t/{tenant_id}/e/{environment_id}/account/mfa/recovery-codes/redeem",
        Methods::Post,
        Endpoint::RedeemRecoveryCode,
    ),
    ("/t/{tenant_id}/e/{environment_id}/account/mfa/plan", Methods::Get, Endpoint::MfaPlan),
    (
        "/t/{tenant_id}/e/{environment_id}/invitations/accept",
        Methods::Post,
        Endpoint::AcceptInvitation,
    ),
    ("/t/{tenant_id}/e/{environment_id}/otp/send", Methods::Post, Endpoint::EmailOtpSend),
    ("/t/{tenant_id}/e/{environment_id}/otp/verify", Methods::Post, Endpoint::EmailOtpVerify),
    ("/t/{tenant_id}/e/{environment_id}/magic/send", Methods::Post, Endpoint::MagicSend),
    ("/t/{tenant_id}/e/{environment_id}/magic/confirm", Methods::Get, Endpoint::MagicConfirm),
    ("/t/{tenant_id}/e/{environment_id}/magic/consume", Methods::Post, Endpoint::MagicConsume),
    ("/t/{tenant_id}/e/{environment_id}/pow/challenge", Methods::Post, Endpoint::PowChallenge),
    ("/t/{tenant_id}/e/{environment_id}/otp/sms/send", Methods::Post, Endpoint::SmsOtpSend),
    ("/t/{tenant_id}/e/{environment_id}/otp/sms/verify", Methods::Post, Endpoint::SmsOtpVerify),
    (FLOW_BROWSER_PATH, Methods::GetPost, Endpoint::FlowBrowser),
    (FLOW_CREATE_API_PATH, Methods::Post, Endpoint::FlowApiCreate),
    (FLOW_API_SUBMIT_PATH, Methods::Post, Endpoint::FlowApiSubmit),
    (FLOW_STYLESHEET_PATH, Methods::Get, Endpoint::FlowStylesheet),
    (FLOW_BRAND_ASSET_PATH, Methods::Get, Endpoint::FlowBrandAsset),
];

/// The endpoints at which clients register themselves.
pub const REGISTRATION: [(&'static str, Methods, Endpoint); 2] = [
    ("/t/{tenant_id}/e/{environment_id}/connect/register", Methods::Post, Endpoint::RegisterClient),
    (
        "/t/{tenant_id}/e/{environment_id}/connect/register/{client_id}",
        Methods::GetPutDelete,
        Endpoint::ManageClient,
    ),
];

/// The endpoint of the page by which a client watches a session.
pub const SESSION_MANAGEMENT: (&'static str, Methods, Endpoint) = (
    "/connect/check_session",
    Methods::Get,
    Endpoint::CheckSession,
);

/// The endpoint that revokes everything of a subject.
pub const GLOBAL_REVOCATION: (&'static str, Methods, Endpoint) = (
    GLOBAL_TOKEN_REVOCATION_PATH,
    Methods::Post,
    Endpoint::GlobalTokenRevocation,
);

/// Which of the other endpoints are served.
#[derive(Debug, Clone, Copy, PartialEq, Eq, Structural)]
pub struct RouterSettings {
    pub registration: bool,
    pub session_management: bool,
    pub global_token_revocation: bool,
}

/// What is served at a path, and which methods it takes.
#[derive(Debug, PartialEq, Eq)]
pub struct Mount {
    pub path: String,
    pub methods: Methods,
    pub endpoint: Endpoint,
}

/// The model of the endpoints.
pub open spec fn mounts(v: Seq<Mount>) -> Seq<(Seq<char>, Methods, Endpoint)> {
    v.map_values(|m: Mount| (m.path@, m.methods, m.endpoint))
}

/// The model of a table.
pub open spec fn rows(v: Seq<(&'static str, Methods, Endpoint)>) -> Seq<(Seq<char>, Methods, Endpoint)> {
    v.map_values(|p: (&'static str, Methods, Endpoint)| (p.0@, p.1, p.2))
}

/// These, where that is on.
pub open spec fn only_if(on: bool, more: Seq<(Seq<char>, Methods, Endpoint)>) -> Seq<(Seq<char>, Methods, Endpoint)> {
    if on {
        more
    } else {
        Seq::empty()
    }
}

/// The endpoints that are served: those that always are, the one at which a sign-in is disavowed,
/// and those that are on.
pub open spec fn served(settings: RouterSettings, disavowal: Seq<char>) -> Seq<(Seq<char>, Methods, Endpoint)> {
    rows(ALWAYS@) + seq![(disavowal, Methods::GetPost, Endpoint::Disavow)] + only_if(
        settings.registration,
        rows(REGISTRATION@),
    ) + only_if(
        settings.session_management,
        seq![(SESSION_MANAGEMENT.0@, SESSION_MANAGEMENT.1, SESSION_MANAGEMENT.2)],
    ) + only_if(
        settings.global_token_revocation,
        seq![(GLOBAL_REVOCATION.0@, GLOBAL_REVOCATION.1, GLOBAL_REVOCATION.2)],
    )
}

/// Adds an endpoint.
fn mount(v: &mut Vec<Mount>, path: &str, methods: Methods, endpoint: Endpoint)
    ensures
        mounts(final(v)@) == mounts(old(v)@).push((path@, methods, endpoint)),
{
    let ghost before = v@;
    v.push(Mount { path: path.to_owned(), methods, endpoint });
    assert(mounts(v@) =~= mounts(before).push((path@, methods, endpoint)));
}

/// Adds the endpoints of a table.
fn mount_all(v: &mut Vec<Mount>, table: &[(&'static str, Methods, Endpoint)])
    ensures
        mounts(final(v)@) == mounts(old(v)@) + rows(table@),
{
    let ghost before = mounts(v@);
    let mut i: usize = 0;
    assert(before + rows(table@).take(0) =~= before);
    while i < table.len()
        invariant
            i <= table@.len(),
            mounts(v@) == before + rows(table@).take(i as int),
        decreases table@.len() - i,
    {
        mount(v, table[i].0, table[i].1, table[i].2);
        assert(before + rows(table@).take(i + 1) =~= (before + rows(table@).take(i as int)).push(
            rows(table@)[i as int],
        ));
        i = i + 1;
    }
    assert(rows(table@).take(table@.len() as int) =~= rows(table@));
}

/// The endpoints that are served. `disavowal` is where a sign-in is disavowed.
pub fn oidc_router(settings: RouterSettings, disavowal: &str) -> (r: Vec<Mount>)
    ensures
        mounts(r@) == served(settings, disavowal@),
{
    let mut v: Vec<Mount> = Vec::new();
    let always = ALWAYS;
    mount_all(&mut v, always.as_slice());
    mount(&mut v, disavowal, Methods::GetPost, Endpoint::Disavow);
    if settings.registration {
        let registration = REGISTRATION;
        mount_all(&mut v, registration.as_slice());
    }
    if settings.session_management {
        mount(&mut v, SESSION_MANAGEMENT.0, SESSION_MANAGEMENT.1, SESSION_MANAGEMENT.2);
    }
    if settings.global_token_revocation {
        mount(&mut v, GLOBAL_REVOCATION.0, GLOBAL_REVOCATION.1, GLOBAL_REVOCATION.2);
    }
    assert(mounts(v@) =~= served(settings, disavowal@));
    v
}

// ---------------------------------------------------------------------------
// Laws
// ---------------------------------------------------------------------------

/// With everything off, nothing is served but what always is; and what is turned on takes nothing
/// away.
pub proof fn law_what_is_on_only_adds(settings: RouterSettings, disavowal: Seq<char>)
    ensures
        served(
            (RouterSettings {
                registration: false,
                session_management: false,
                global_token_revocation: false,
            }),
            disavowal,
        ) == rows(ALWAYS@).push((disavowal, Methods::GetPost, Endpoint::Disavow)),
        rows(ALWAYS@).push((disavowal, Methods::GetPost, Endpoint::Disavow)).is_prefix_of(
            served(settings, disavowal),
        ),
{
    let least = rows(ALWAYS@).push((disavowal, Methods::GetPost, Endpoint::Disavow));
    assert(served(
        (RouterSettings {
            registration: false,
            session_management: false,
            global_token_revocation: false,
        }),
        disavowal,
    ) =~= least);
    assert(served(settings, disavowal).take(least.len() as int) =~= least);
}

/// An endpoint takes the methods that it is named after, and no other.
pub proof fn law_an_endpoint_takes_its_methods(method: Method)
    ensures
        Methods::Get.includes(method) <==> method is Get,
        Methods::Post.includes(method) <==> method is Post,
        Methods::GetPost.includes(method) <==> (method is Get || method is Post),
        Methods::GetPostOptions.includes(method) <==> (method is Get || method is Post
            || method is Options),
        Methods::GetPutDelete.includes(method) <==> (method is Get || method is Put || method is Delete),
{
}

/// What is on is served behind what always is: a sign-in is disavowed at its own path; clients
/// register and manage themselves where that is on; a session is watched where session management is
/// on; and everything of a subject is revoked where that is on. What is off is not served.
pub proof fn law_what_is_on_is_served(settings: RouterSettings, disavowal: Seq<char>)
    ensures
        served(settings, disavowal).len() == ALWAYS@.len() + 1 + (if settings.registration {
            2int
        } else {
            0
        }) + (if settings.session_management {
            1int
        } else {
            0
        }) + (if settings.global_token_revocation {
            1int
        } else {
            0
        }),
        served(settings, disavowal)[ALWAYS@.len() as int] == (
            disavowal,
            Methods::GetPost,
            Endpoint::Disavow,
        ),
        settings.registration ==> served(settings, disavowal)[ALWAYS@.len() as int + 1] == (
            "/t/{tenant_id}/e/{environment_id}/connect/register"@,
            Methods::Post,
            Endpoint::RegisterClient,
        ) && served(settings, disavowal)[ALWAYS@.len() as int + 2] == (
            "/t/{tenant_id}/e/{environment_id}/connect/register/{client_id}"@,
            Methods::GetPutDelete,
            Endpoint::ManageClient,
        ),
        settings.global_token_revocation ==> served(settings, disavowal).last() == (
            "/global-token-revocation"@,
            Methods::Post,
            Endpoint::GlobalTokenRevocation,
        ),
        settings.session_management && !settings.global_token_revocation ==> served(
            settings,
            disavowal,
        ).last() == ("/connect/check_session"@, Methods::Get, Endpoint::CheckSession),
        settings.session_management && settings.global_token_revocation ==> served(
            settings,
            disavowal,
        )[served(settings, disavowal).len() - 2] == (
            "/connect/check_session"@,
            Methods::Get,
            Endpoint::CheckSession,
        ),
        forall|i: int|
            0 <= i < ALWAYS@.len() ==> (#[trigger] served(settings, disavowal)[i]) == (
                ALWAYS@[i].0@,
                ALWAYS@[i].1,
                ALWAYS@[i].2,
            ),
{
    assert(REGISTRATION@.len() == 2);
    assert(rows(REGISTRATION@)[0] == (
        "/t/{tenant_id}/e/{environment_id}/connect/register"@,
        Methods::Post,
        Endpoint::RegisterClient,
    ));
    assert(rows(REGISTRATION@)[1] == (
        "/t/{tenant_id}/e/{environment_id}/connect/register/{client_id}"@,
        Methods::GetPutDelete,
        Endpoint::ManageClient,
    ));
}

/// Whatever is on, the pages, lists and documents that are only read are served at their paths, and
/// nothing can be sent to them.
pub proof fn law_pages_and_lists_are_read(settings: RouterSettings, disavowal: Seq<char>)
    ensures
        served(settings, disavowal).contains(("/t/{tenant_id}/e/{environment_id}/federation/{connector_slug}/authorize"@, Methods::Get, Endpoint::FederationAuthorize)),
        served(settings, disavowal).contains(("/t/{tenant_id}/e/{environment_id}/federation/{connector_slug}/callback"@, Methods::Get, Endpoint::FederationCallback)),
        served(settings, disavowal).contains(("/t/{tenant_id}/e/{environment_id}/account/sessions"@, Methods::Get, Endpoint::Sessions)),
        served(settings, disavowal).contains(("/t/{tenant_id}/e/{environment_id}/account/trusted-devices"@, Methods::Get, Endpoint::TrustedDevices)),
        served(settings, disavowal).contains(("/t/{tenant_id}/e/{environment_id}/account/linked-identities"@, Methods::Get, Endpoint::LinkedIdentities)),
        served(settings, disavowal).contains(("/.well-known/webauthn"@, Methods::Get, Endpoint::RelatedOrigins)),
        served(settings, disavowal).contains(("/.well-known/web-identity"@, Methods::Get, Endpoint::WebIdentity)),
        served(settings, disavowal).contains(("/t/{tenant_id}/e/{environment_id}/fedcm/config.json"@, Methods::Get, Endpoint::FedcmConfig)),
        served(settings, disavowal).contains(("/t/{tenant_id}/e/{environment_id}/fedcm/accounts"@, Methods::Get, Endpoint::FedcmAccounts)),
        served(settings, disavowal).contains(("/t/{tenant_id}/e/{environment_id}/webauthn/credentials"@, Methods::Get, Endpoint::PasskeyCredentials)),
        served(settings, disavowal).contains(("/t/{tenant_id}/e/{environment_id}/webauthn/signal"@, Methods::Get, Endpoint::PasskeySignal)),
        served(settings, disavowal).contains(("/t/{tenant_id}/e/{environment_id}/webauthn/manage"@, Methods::Get, Endpoint::PasskeyManage)),
        served(settings, disavowal).contains(("/t/{tenant_id}/e/{environment_id}/account/mfa/plan"@, Methods::Get, Endpoint::MfaPlan)),
        served(settings, disavowal).contains(("/t/{tenant_id}/e/{environment_id}/magic/confirm"@, Methods::Get, Endpoint::MagicConfirm)),
        served(settings, disavowal).contains(("/t/{tenant_id}/e/{environment_id}/pages.css"@, Methods::Get, Endpoint::FlowStylesheet)),
        served(settings, disavowal).contains(("/t/{tenant_id}/e/{environment_id}/brand/{slug}/{kind}"@, Methods::Get, Endpoint::FlowBrandAsset)),
{
    law_what_is_on_is_served(settings, disavowal);
    let all = served(settings, disavowal);
    assert(ALWAYS@.len() == 71);
    assert(all[8] == ("/t/{tenant_id}/e/{environment_id}/federation/{connector_slug}/authorize"@, Methods::Get, Endpoint::FederationAuthorize));
    assert(all[9] == ("/t/{tenant_id}/e/{environment_id}/federation/{connector_slug}/callback"@, Methods::Get, Endpoint::FederationCallback));
    assert(all[18] == ("/t/{tenant_id}/e/{environment_id}/account/sessions"@, Methods::Get, Endpoint::Sessions));
    assert(all[21] == ("/t/{tenant_id}/e/{environment_id}/account/trusted-devices"@, Methods::Get, Endpoint::TrustedDevices));
    assert(all[28] == ("/t/{tenant_id}/e/{environment_id}/account/linked-identities"@, Methods::Get, Endpoint::LinkedIdentities));
    assert(all[31] == ("/.well-known/webauthn"@, Methods::Get, Endpoint::RelatedOrigins));
    assert(all[32] == ("/.well-known/web-identity"@, Methods::Get, Endpoint::WebIdentity));
    assert(all[33] == ("/t/{tenant_id}/e/{environment_id}/fedcm/config.json"@, Methods::Get, Endpoint::FedcmConfig));
    assert(all[34] == ("/t/{tenant_id}/e/{environment_id}/fedcm/accounts"@, Methods::Get, Endpoint::FedcmAccounts));
    assert(all[45] == ("/t/{tenant_id}/e/{environment_id}/webauthn/credentials"@, Methods::Get, Endpoint::PasskeyCredentials));
    assert(all[48] == ("/t/{tenant_id}/e/{environment_id}/webauthn/signal"@, Methods::Get, Endpoint::PasskeySignal));
    assert(all[49] == ("/t/{tenant_id}/e/{environment_id}/webauthn/manage"@, Methods::Get, Endpoint::PasskeyManage));
    assert(all[56] == ("/t/{tenant_id}/e/{environment_id}/account/mfa/plan"@, Methods::Get, Endpoint::MfaPlan));
    assert(all[61] == ("/t/{tenant_id}/e/{environment_id}/magic/confirm"@, Methods::Get, Endpoint::MagicConfirm));
    assert(all[69] == ("/t/{tenant_id}/e/{environment_id}/pages.css"@, Methods::Get, Endpoint::FlowStylesheet));
    assert(all[70] == ("/t/{tenant_id}/e/{environment_id}/brand/{slug}/{kind}"@, Methods::Get, Endpoint::FlowBrandAsset));
}

/// Whatever is on, the endpoints of the protocol and of the account that change something are served
/// at their paths, and nothing is changed there by reading.
pub proof fn law_protocol_and_account_changes_are_sent(settings: RouterSettings, disavowal: Seq<char>)
    ensures
        served(settings, disavowal).contains(("/token"@, Methods::Post, Endpoint::Token)),
        served(settings, disavowal).contains(("/par"@, Methods::Post, Endpoint::PushedAuthorization)),
        served(settings, disavowal).contains(("/revoke"@, Methods::Post, Endpoint::Revoke)),
        served(settings, disavowal).contains(("/introspect"@, Methods::Post, Endpoint::Introspect)),
        served(settings, disavowal).contains(("/t/{tenant_id}/e/{environment_id}/federation/upstream-token"@, Methods::Post, Endpoint::UpstreamToken)),
        served(settings, disavowal).contains(("/device_authorization"@, Methods::Post, Endpoint::DeviceAuthorization)),
        served(settings, disavowal).contains(("/t/{tenant_id}/e/{environment_id}/account/sessions/revoke"@, Methods::Post, Endpoint::RevokeSession)),
        served(settings, disavowal).contains(("/t/{tenant_id}/e/{environment_id}/account/sessions/revoke-others"@, Methods::Post, Endpoint::RevokeOtherSessions)),
        served(settings, disavowal).contains(("/t/{tenant_id}/e/{environment_id}/account/trusted-devices/revoke"@, Methods::Post, Endpoint::RevokeTrustedDevice)),
        served(settings, disavowal).contains(("/t/{tenant_id}/e/{environment_id}/account/trusted-devices/revoke-all"@, Methods::Post, Endpoint::RevokeAllTrustedDevices)),
        served(settings, disavowal).contains(("/t/{tenant_id}/e/{environment_id}/account/credentials/remove"@, Methods::Post, Endpoint::RemoveCredential)),
        served(settings, disavowal).contains(("/t/{tenant_id}/e/{environment_id}/account/password"@, Methods::Post, Endpoint::ChangePassword)),
        served(settings, disavowal).contains(("/t/{tenant_id}/e/{environment_id}/account/password/remove"@, Methods::Post, Endpoint::RemovePassword)),
        served(settings, disavowal).contains(("/t/{tenant_id}/e/{environment_id}/account/linked-identities/start"@, Methods::Post, Endpoint::StartLink)),
        served(settings, disavowal).contains(("/t/{tenant_id}/e/{environment_id}/account/linked-identities/remove"@, Methods::Post, Endpoint::RemoveLinkedIdentity)),
        served(settings, disavowal).contains(("/t/{tenant_id}/e/{environment_id}/fedcm/assertion"@, Methods::Post, Endpoint::FedcmAssertion)),
        served(settings, disavowal).contains(("/t/{tenant_id}/e/{environment_id}/risk/signals"@, Methods::Post, Endpoint::RiskSignals)),
        served(settings, disavowal).contains(("/t/{tenant_id}/e/{environment_id}/recover/trusted-contact/confirm"@, Methods::Post, Endpoint::TrustedContactConfirm)),
        served(settings, disavowal).contains(("/t/{tenant_id}/e/{environment_id}/recover/idv/callback"@, Methods::Post, Endpoint::IdvCallback)),
        served(settings, disavowal).contains(("/t/{tenant_id}/e/{environment_id}/webauthn/register/options"@, Methods::Post, Endpoint::PasskeyRegisterOptions)),
        served(settings, disavowal).contains(("/t/{tenant_id}/e/{environment_id}/webauthn/register/verify"@, Methods::Post, Endpoint::PasskeyRegisterVerify)),
{
    law_what_is_on_is_served(settings, disavowal);
    let all = served(settings, disavowal);
    assert(ALWAYS@.len() == 71);
    assert(all[1] == ("/token"@, Methods::Post, Endpoint::Token));
    assert(all[2] == ("/par"@, Methods::Post, Endpoint::PushedAuthorization));
    assert(all[3] == ("/revoke"@, Methods::Post, Endpoint::Revoke));
    assert(all[4] == ("/introspect"@, Methods::Post, Endpoint::Introspect));
    assert(all[10] == ("/t/{tenant_id}/e/{environment_id}/federation/upstream-token"@, Methods::Post, Endpoint::UpstreamToken));
    assert(all[16] == ("/device_authorization"@, Methods::Post, Endpoint::DeviceAuthorization));
    assert(all[19] == ("/t/{tenant_id}/e/{environment_id}/account/sessions/revoke"@, Methods::Post, Endpoint::RevokeSession));
    assert(all[20] == ("/t/{tenant_id}/e/{environment_id}/account/sessions/revoke-others"@, Methods::Post, Endpoint::RevokeOtherSessions));
    assert(all[22] == ("/t/{tenant_id}/e/{environment_id}/account/trusted-devices/revoke"@, Methods::Post, Endpoint::RevokeTrustedDevice));
    assert(all[23] == ("/t/{tenant_id}/e/{environment_id}/account/trusted-devices/revoke-all"@, Methods::Post, Endpoint::RevokeAllTrustedDevices));
    assert(all[25] == ("/t/{tenant_id}/e/{environment_id}/account/credentials/remove"@, Methods::Post, Endpoint::RemoveCredential));
    assert(all[26] == ("/t/{tenant_id}/e/{environment_id}/account/password"@, Methods::Post, Endpoint::ChangePassword));
    assert(all[27] == ("/t/{tenant_id}/e/{environment_id}/account/password/remove"@, Methods::Post, Endpoint::RemovePassword));
    assert(all[29] == ("/t/{tenant_id}/e/{environment_id}/account/linked-identities/start"@, Methods::Post, Endpoint::StartLink));
    assert(all[30] == ("/t/{tenant_id}/e/{environment_id}/account/linked-identities/remove"@, Methods::Post, Endpoint::RemoveLinkedIdentity));
    assert(all[35] == ("/t/{tenant_id}/e/{environment_id}/fedcm/assertion"@, Methods::Post, Endpoint::FedcmAssertion));
    assert(all[36] == ("/t/{tenant_id}/e/{environment_id}/risk/signals"@, Methods::Post, Endpoint::RiskSignals));
    assert(all[37] == ("/t/{tenant_id}/e/{environment_id}/recover/trusted-contact/confirm"@, Methods::Post, Endpoint::TrustedContactConfirm));
    assert(all[38] == ("/t/{tenant_id}/e/{environment_id}/recover/idv/callback"@, Methods::Post, Endpoint::IdvCallback));
    assert(all[39] == ("/t/{tenant_id}/e/{environment_id}/webauthn/register/options"@, Methods::Post, Endpoint::PasskeyRegisterOptions));
    assert(all[40] == ("/t/{tenant_id}/e/{environment_id}/webauthn/register/verify"@, Methods::Post, Endpoint::PasskeyRegisterVerify));
}

/// Whatever is on, the endpoints of the ceremonies, of the codes and of the flows that change
/// something are served at their paths, and nothing is changed there by reading.
pub proof fn law_ceremonies_and_codes_are_sent(settings: RouterSettings, disavowal: Seq<char>)
    ensures
        served(settings, disavowal).contains(("/t/{tenant_id}/e/{environment_id}/webauthn/authenticate/options"@, Methods::Post, Endpoint::PasskeyAuthenticateOptions)),
        served(settings, disavowal).contains(("/t/{tenant_id}/e/{environment_id}/webauthn/authenticate/verify"@, Methods::Post, Endpoint::PasskeyAuthenticateVerify)),
        served(settings, disavowal).contains(("/t/{tenant_id}/e/{environment_id}/webauthn/signup/options"@, Methods::Post, Endpoint::PasskeySignupOptions)),
        served(settings, disavowal).contains(("/t/{tenant_id}/e/{environment_id}/webauthn/signup/verify"@, Methods::Post, Endpoint::PasskeySignupVerify)),
        served(settings, disavowal).contains(("/t/{tenant_id}/e/{environment_id}/webauthn/credentials/rename"@, Methods::Post, Endpoint::RenamePasskey)),
        served(settings, disavowal).contains(("/t/{tenant_id}/e/{environment_id}/webauthn/credentials/remove"@, Methods::Post, Endpoint::RemovePasskey)),
        served(settings, disavowal).contains(("/t/{tenant_id}/e/{environment_id}/account/mfa/totp/enroll"@, Methods::Post, Endpoint::TotpEnroll)),
        served(settings, disavowal).contains(("/t/{tenant_id}/e/{environment_id}/account/mfa/totp/verify-enrollment"@, Methods::Post, Endpoint::TotpVerifyEnrollment)),
        served(settings, disavowal).contains(("/t/{tenant_id}/e/{environment_id}/account/mfa/totp/verify"@, Methods::Post, Endpoint::TotpVerify)),
        served(settings, disavowal).contains(("/t/{tenant_id}/e/{environment_id}/account/mfa/totp/remove"@, Methods::Post, Endpoint::TotpRemove)),
        served(settings, disavowal).contains(("/t/{tenant_id}/e/{environment_id}/account/mfa/recovery-codes"@, Methods::Post, Endpoint::RecoveryCodes)),
        served(settings, disavowal).contains(("/t/{tenant_id}/e/{environment_id}/account/mfa/recovery-codes/redeem"@, Methods::Post, Endpoint::RedeemRecoveryCode)),
        served(settings, disavowal).contains(("/t/{tenant_id}/e/{environment_id}/invitations/accept"@, Methods::Post, Endpoint::AcceptInvitation)),
        served(settings, disavowal).contains(("/t/{tenant_id}/e/{environment_id}/otp/send"@, Methods::Post, Endpoint::EmailOtpSend)),
        served(settings, disavowal).contains(("/t/{tenant_id}/e/{environment_id}/otp/verify"@, Methods::Post, Endpoint::EmailOtpVerify)),
        served(settings, disavowal).contains(("/t/{tenant_id}/e/{environment_id}/magic/send"@, Methods::Post, Endpoint::MagicSend)),
        served(settings, disavowal).contains(("/t/{tenant_id}/e/{environment_id}/magic/consume"@, Methods::Post, Endpoint::MagicConsume)),
        served(settings, disavowal).contains(("/t/{tenant_id}/e/{environment_id}/pow/challenge"@, Methods::Post, Endpoint::PowChallenge)),
        served(settings, disavowal).contains(("/t/{tenant_id}/e/{environment_id}/otp/sms/send"@, Methods::Post, Endpoint::SmsOtpSend)),
        served(settings, disavowal).contains(("/t/{tenant_id}/e/{environment_id}/otp/sms/verify"@, Methods::Post, Endpoint::SmsOtpVerify)),
        served(settings, disavowal).contains(("/t/{tenant_id}/e/{environment_id}/flow/api/{journey}"@, Methods::Post, Endpoint::FlowApiCreate)),
        served(settings, disavowal).contains(("/t/{tenant_id}/e/{environment_id}/flow/api/{journey}/submit"@, Methods::Post, Endpoint::FlowApiSubmit)),
{
    law_what_is_on_is_served(settings, disavowal);
    let all = served(settings, disavowal);
    assert(ALWAYS@.len() == 71);
    assert(all[41] == ("/t/{tenant_id}/e/{environment_id}/webauthn/authenticate/options"@, Methods::Post, Endpoint::PasskeyAuthenticateOptions));
    assert(all[42] == ("/t/{tenant_id}/e/{environment_id}/webauthn/authenticate/verify"@, Methods::Post, Endpoint::PasskeyAuthenticateVerify));
    assert(all[43] == ("/t/{tenant_id}/e/{environment_id}/webauthn/signup/options"@, Methods::Post, Endpoint::PasskeySignupOptions));
    assert(all[44] == ("/t/{tenant_id}/e/{environment_id}/webauthn/signup/verify"@, Methods::Post, Endpoint::PasskeySignupVerify));
    assert(all[46] == ("/t/{tenant_id}/e/{environment_id}/webauthn/credentials/rename"@, Methods::Post, Endpoint::RenamePasskey));
    assert(all[47] == ("/t/{tenant_id}/e/{environment_id}/webauthn/credentials/remove"@, Methods::Post, Endpoint::RemovePasskey));
    assert(all[50] == ("/t/{tenant_id}/e/{environment_id}/account/mfa/totp/enroll"@, Methods::Post, Endpoint::TotpEnroll));
    assert(all[51] == ("/t/{tenant_id}/e/{environment_id}/account/mfa/totp/verify-enrollment"@, Methods::Post, Endpoint::TotpVerifyEnrollment));
    assert(all[52] == ("/t/{tenant_id}/e/{environment_id}/account/mfa/totp/verify"@, Methods::Post, Endpoint::TotpVerify));
    assert(all[53] == ("/t/{tenant_id}/e/{environment_id}/account/mfa/totp/remove"@, Methods::Post, Endpoint::TotpRemove));
    assert(all[54] == ("/t/{tenant_id}/e/{environment_id}/account/mfa/recovery-codes"@, Methods::Post, Endpoint::RecoveryCodes));
    assert(all[55] == ("/t/{tenant_id}/e/{environment_id}/account/mfa/recovery-codes/redeem"@, Methods::Post, Endpoint::RedeemRecoveryCode));
    assert(all[57] == ("/t/{tenant_id}/e/{environment_id}/invitations/accept"@, Methods::Post, Endpoint::AcceptInvitation));
    assert(all[58] == ("/t/{tenant_id}/e/{environment_id}/otp/send"@, Methods::Post, Endpoint::EmailOtpSend));
    assert(all[59] == ("/t/{tenant_id}/e/{environment_id}/otp/verify"@, Methods::Post, Endpoint::EmailOtpVerify));
    assert(all[60] == ("/t/{tenant_id}/e/{environment_id}/magic/send"@, Methods::Post, Endpoint::MagicSend));
    assert(all[62] == ("/t/{tenant_id}/e/{environment_id}/magic/consume"@, Methods::Post, Endpoint::MagicConsume));
    assert(all[63] == ("/t/{tenant_id}/e/{environment_id}/pow/challenge"@, Methods::Post, Endpoint::PowChallenge));
    assert(all[64] == ("/t/{tenant_id}/e/{environment_id}/otp/sms/send"@, Methods::Post, Endpoint::SmsOtpSend));
    assert(all[65] == ("/t/{tenant_id}/e/{environment_id}/otp/sms/verify"@, Methods::Post, Endpoint::SmsOtpVerify));
    assert(all[67] == ("/t/{tenant_id}/e/{environment_id}/flow/api/{journey}"@, Methods::Post, Endpoint::FlowApiCreate));
    assert(all[68] == ("/t/{tenant_id}/e/{environment_id}/flow/api/{journey}/submit"@, Methods::Post, Endpoint::FlowApiSubmit));
}

/// Whatever is on, the forms are served at their paths, which are read and sent to.
pub proof fn law_forms_are_read_and_sent(settings: RouterSettings, disavowal: Seq<char>)
    ensures
        served(settings, disavowal).contains(("/authorize"@, Methods::GetPost, Endpoint::Authorize)),
        served(settings, disavowal).contains(("/end_session"@, Methods::GetPost, Endpoint::EndSession)),
        served(settings, disavowal).contains(("/login"@, Methods::GetPost, Endpoint::Login)),
        served(settings, disavowal).contains(("/login/mfa"@, Methods::GetPost, Endpoint::MfaChallenge)),
        served(settings, disavowal).contains(("/register"@, Methods::GetPost, Endpoint::Register)),
        served(settings, disavowal).contains(("/recover"@, Methods::GetPost, Endpoint::Recover)),
        served(settings, disavowal).contains(("/recover/cancel"@, Methods::GetPost, Endpoint::RecoverCancel)),
        served(settings, disavowal).contains(("/consent"@, Methods::GetPost, Endpoint::Consent)),
        served(settings, disavowal).contains(("/t/{tenant_id}/e/{environment_id}/device"@, Methods::GetPost, Endpoint::DeviceVerification)),
        served(settings, disavowal).contains(("/t/{tenant_id}/e/{environment_id}/account/credentials"@, Methods::GetPost, Endpoint::Credentials)),
        served(settings, disavowal).contains(("/t/{tenant_id}/e/{environment_id}/flow/{journey}"@, Methods::GetPost, Endpoint::FlowBrowser)),
{
    law_what_is_on_is_served(settings, disavowal);
    let all = served(settings, disavowal);
    assert(ALWAYS@.len() == 71);
    assert(all[0] == ("/authorize"@, Methods::GetPost, Endpoint::Authorize));
    assert(all[5] == ("/end_session"@, Methods::GetPost, Endpoint::EndSession));
    assert(all[7] == ("/login"@, Methods::GetPost, Endpoint::Login));
    assert(all[11] == ("/login/mfa"@, Methods::GetPost, Endpoint::MfaChallenge));
    assert(all[12] == ("/register"@, Methods::GetPost, Endpoint::Register));
    assert(all[13] == ("/recover"@, Methods::GetPost, Endpoint::Recover));
    assert(all[14] == ("/recover/cancel"@, Methods::GetPost, Endpoint::RecoverCancel));
    assert(all[15] == ("/consent"@, Methods::GetPost, Endpoint::Consent));
    assert(all[17] == ("/t/{tenant_id}/e/{environment_id}/device"@, Methods::GetPost, Endpoint::DeviceVerification));
    assert(all[24] == ("/t/{tenant_id}/e/{environment_id}/account/credentials"@, Methods::GetPost, Endpoint::Credentials));
    assert(all[66] == ("/t/{tenant_id}/e/{environment_id}/flow/{journey}"@, Methods::GetPost, Endpoint::FlowBrowser));
}

/// Whatever is on, the claims of a user are served at their path, also to a page of another origin
/// that asks first.
pub proof fn law_the_claims_are_asked_for_across_origins(settings: RouterSettings, disavowal: Seq<char>)
    ensures
        served(settings, disavowal).contains(("/userinfo"@, Methods::GetPostOptions, Endpoint::UserInfo)),
{
    law_what_is_on_is_served(settings, disavowal);
    let all = served(settings, disavowal);
    assert(ALWAYS@.len() == 71);
    assert(all[6] == ("/userinfo"@, Methods::GetPostOptions, Endpoint::UserInfo));
}

} // verus!
