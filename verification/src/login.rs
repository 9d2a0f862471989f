//! Signing in with a password, and the step up to a second factor.
//!
//! A failed sign-in is answered with one page, whatever failed: the password, the account that is
//! not there, the account that may not sign in, or the risk of the attempt. A verification is
//! spent on an account that is not there too, so that the time does not tell either.

use vstd::prelude::*;

use crate::authn;
use crate::authn::AuthMethod;
use crate::authn::AuthenticationEvent;
use crate::hashing_pool::HashRejection;
use crate::headers::Headers;
use crate::hints;
use crate::hints::InteractionHints;
use crate::interaction;
use crate::interaction::AuthenticatedSession;
use crate::interaction::EstablishSessionError;
use crate::interaction::Notice;
use crate::interaction::ResumeTarget;
use crate::interaction::SessionCookies;
use crate::json;
use crate::reply;
use crate::reply::Reply;
use crate::scope_map::Scope;
use crate::text;
use crate::util;

verus! {

/// What a page says after a failed sign-in.
pub const FAILED_LOGIN: &'static str = "Incorrect identifier or password.";

/// The query of the login page.
pub struct ResumeQuery {
    /// The authorization request to return to.
    pub return_to: Option<String>,
    /// `1` where only a passkey will do.
    pub passkey: Option<String>,
}

/// The login form.
pub struct LoginForm {
    pub identifier: Option<String>,
    pub password: Option<String>,
    pub return_to: Option<String>,
}

/// The query of the page that asks for a second factor.
pub struct MfaChallengeQuery {
    pub return_to: Option<String>,
    /// `1` where the subject has no second factor yet.
    pub enroll: Option<String>,
}

/// The form with the second factor.
pub struct MfaChallengeForm {
    pub code: Option<String>,
    pub return_to: Option<String>,
    /// The box that asks to remember the device.
    pub remember_device: Option<String>,
}

/// A text as it was typed, without the white space around it; empty where there is none.
pub open spec fn typed(value: Option<Seq<char>>) -> Seq<char> {
    match value {
        Some(v) => text::trim(v),
        None => Seq::empty(),
    }
}

/// A text as it was typed, without the white space around it.
fn typed_text(value: &Option<String>) -> (r: String)
    ensures
        r@ == typed(text::opt_text(*value)),
{
    match value {
        Some(v) => text::trimmed(v.as_str()),
        None => String::new(),
    }
}

/// A password exactly as it was typed; empty where there is none.
pub open spec fn given(value: Option<Seq<char>>) -> Seq<char> {
    match value {
        Some(v) => v,
        None => Seq::empty(),
    }
}

/// A password exactly as it was typed.
fn given_text(value: &Option<String>) -> (r: String)
    ensures
        r@ == given(text::opt_text(*value)),
{
    match value {
        Some(v) => v.clone(),
        None => String::new(),
    }
}

/// The request to return to, where the value names one and its client has a scope.
pub open spec fn resumed(return_to: Option<Seq<char>>, scope: Option<Scope>) -> Option<
    interaction::ResumeView,
> {
    match scope {
        Some(_) => interaction::resume_of(return_to),
        None => None,
    }
}

/// The request to return to. `scope` is that of the client that the value names; without one
/// nothing comes of the value.
pub fn resume(return_to: &Option<String>, scope: &Option<Scope>) -> (r: Option<ResumeTarget>)
    ensures
        match r {
            Some(t) => resumed(text::opt_text(*return_to), *scope) == Some(t@),
            None => resumed(text::opt_text(*return_to), *scope) is None,
        },
{
    match scope {
        Some(_) => interaction::parse_resume(hints::borrowed(return_to)),
        None => None,
    }
}

// ---------------------------------------------------------------------------
// The login page
// ---------------------------------------------------------------------------

/// What the passkey script of the page needs.
#[derive(Debug, PartialEq, Eq)]
pub struct PasskeyUi {
    pub nonce: String,
    pub scope_path: String,
    pub signal_api: bool,
}

/// The login page.
#[derive(Debug, PartialEq, Eq)]
pub struct LoginPage {
    pub status: u16,
    /// What stands in the field of the identifier.
    pub identifier: String,
    pub return_to: String,
    pub error: Option<&'static str>,
    pub hints: InteractionHints,
    /// There is a form for the password.
    pub password_form: bool,
    pub passkey: Option<PasskeyUi>,
}

/// The model of a [`PasskeyUi`].
pub struct PasskeyView {
    pub nonce: Seq<char>,
    pub scope_path: Seq<char>,
    pub signal_api: bool,
}

/// The model of a [`LoginPage`].
pub struct LoginPageView {
    pub status: u16,
    pub identifier: Seq<char>,
    pub return_to: Seq<char>,
    pub error: Option<Seq<char>>,
    pub hints: hints::HintsView,
    pub password_form: bool,
    pub passkey: Option<PasskeyView>,
}

impl View for LoginPage {
    type V = LoginPageView;

    open spec fn view(&self) -> LoginPageView {
        LoginPageView {
            status: self.status,
            identifier: self.identifier@,
            return_to: self.return_to@,
            error: text::opt_str(self.error),
            hints: self.hints@,
            password_form: self.password_form,
            passkey: match self.passkey {
                Some(ui) => Some(
                    PasskeyView {
                        nonce: ui.nonce@,
                        scope_path: ui.scope_path@,
                        signal_api: ui.signal_api,
                    },
                ),
                None => None,
            },
        }
    }
}

/// The path under which a scope is served.
pub open spec fn scope_path(tenant: Seq<char>, environment: Seq<char>) -> Seq<char> {
    "/t/"@ + tenant + "/e/"@ + environment
}

/// The path under which a scope is served.
pub fn path_of(scope: &Scope) -> (r: String)
    ensures
        r@ == scope_path(scope.tenant@, scope.environment@),
{
    let mut path = "/t/".to_owned();
    path.append(scope.tenant.as_str());
    path.append("/e/");
    path.append(scope.environment.as_str());
    path
}

/// A nonce, from as many bytes of chance.
pub fn passkey_nonce(bytes: [u8; 16]) -> (r: String)
    ensures
        r@ == util::hex(bytes@),
        r@.len() == 32,
{
    proof {
        util::law_hexadecimal_is_plain(bytes@);
    }
    util::hex_text(bytes.as_slice())
}

/// What the login page is answered with.
#[derive(Debug, PartialEq, Eq)]
pub enum LoginView {
    /// There is nothing to return to.
    Nothing(Notice),
    /// The page.
    Page(LoginPage),
}

/// How passkeys are offered: the nonce of the script, and whether the page may signal.
pub struct PasskeyOffer {
    pub nonce: String,
    pub signal_api: bool,
}

/// The login page. The hint of the request stands in the field of the identifier. Where passkeys
/// are on, the page offers one, and where only a passkey will do there is no form for a password.
pub fn login_get(query: ResumeQuery, scope: Option<Scope>, passkeys: Option<PasskeyOffer>) -> (r:
    LoginView)
    ensures
        match resumed(text::opt_text(query.return_to), scope) {
            None => r matches LoginView::Nothing(n) && interaction::says(
                n,
                400,
                "Link no longer valid"@,
                "This sign-in link is missing or invalid. Start the sign-in from the application again."@,
            ),
            Some(target) => r matches LoginView::Page(p) && {
                let only = passkeys is Some && text::opt_text(query.passkey) == Some("1"@);
                p@ == (LoginPageView {
                    status: 200,
                    identifier: if only {
                        Seq::empty()
                    } else {
                        given(target.hints.login_hint)
                    },
                    return_to: target.return_to,
                    error: None,
                    hints: target.hints,
                    password_form: !only,
                    passkey: match passkeys {
                        Some(offer) => Some(
                            PasskeyView {
                                nonce: offer.nonce@,
                                scope_path: scope_path(scope->0.tenant@, scope->0.environment@),
                                signal_api: offer.signal_api,
                            },
                        ),
                        None => None,
                    },
                })
            },
        },
{
    let target = match resume(&query.return_to, &scope) {
        Some(target) => target,
        None => return LoginView::Nothing(interaction::invalid_link_page()),
    };
    let asked: bool = match &query.passkey {
        Some(value) => text::same(value.as_str(), "1"),
        None => false,
    };
    let hint: String = match target.hints.login_hint() {
        Some(hint) => hint.to_owned(),
        None => String::new(),
    };
    match passkeys {
        Some(offer) => {
            let path = match &scope {
                Some(s) => path_of(s),
                None => String::new(),
            };
            let ui = PasskeyUi { nonce: offer.nonce, scope_path: path, signal_api: offer.signal_api };
            LoginView::Page(
                LoginPage {
                    status: 200,
                    identifier: if asked {
                        String::new()
                    } else {
                        hint
                    },
                    return_to: target.return_to,
                    error: None,
                    hints: target.hints,
                    password_form: !asked,
                    passkey: Some(ui),
                },
            )
        },
        None => LoginView::Page(
            LoginPage {
                status: 200,
                identifier: hint,
                return_to: target.return_to,
                error: None,
                hints: target.hints,
                password_form: true,
                passkey: None,
            },
        ),
    }
}

/// The page after a failed sign-in: the same whatever failed.
pub open spec fn failed_page(
    status: u16,
    identifier: Seq<char>,
    target: interaction::ResumeView,
) -> LoginPageView {
    LoginPageView {
        status,
        identifier,
        return_to: target.return_to,
        error: Some(FAILED_LOGIN@),
        hints: target.hints,
        password_form: true,
        passkey: None,
    }
}

/// The page after a failed sign-in.
pub fn failed_login_page(identifier: String, target: ResumeTarget) -> (r: LoginPage)
    ensures
        r@ == failed_page(200, identifier@, target@),
{
    LoginPage {
        status: 200,
        identifier,
        return_to: target.return_to,
        error: Some(FAILED_LOGIN),
        hints: target.hints,
        password_form: true,
        passkey: None,
    }
}

/// The page for an attempt too many: that of a failed sign-in, with its own status.
pub fn throttled_login_page(identifier: String, target: ResumeTarget) -> (r: LoginPage)
    ensures
        r@ == failed_page(429, identifier@, target@),
{
    let mut page = failed_login_page(identifier, target);
    page.status = 429;
    page
}

// ---------------------------------------------------------------------------
// Signing in
// ---------------------------------------------------------------------------

/// An account, as far as signing in with a password goes.
pub struct UserRecord {
    pub id: String,
    /// Its state lets it sign in.
    pub can_authenticate: bool,
    /// It has a password of its own.
    pub has_usable_password_hash: bool,
    pub password_hash: String,
    /// The password that it was imported with.
    pub foreign_password_hash: Option<String>,
}

/// How a verification is spent on an account.
#[derive(Debug, Clone, Copy, PartialEq, Eq, Structural)]
pub enum NativeSpend {
    /// Against its password.
    Verify,
    /// As for an account that is not there: it has none.
    Absent,
    /// Not yet: it is spent on the password that the account was imported with.
    Foreign,
}

/// How a verification is spent on an account.
pub open spec fn spend_on(user: UserRecord) -> NativeSpend {
    if user.has_usable_password_hash {
        NativeSpend::Verify
    } else if user.foreign_password_hash is None {
        NativeSpend::Absent
    } else {
        NativeSpend::Foreign
    }
}

/// How a verification is spent on an account, so that the time does not tell its shape.
pub fn spend_native_verify(user: &UserRecord) -> (r: NativeSpend)
    ensures
        r == spend_on(*user),
{
    if user.has_usable_password_hash {
        NativeSpend::Verify
    } else if user.foreign_password_hash.is_none() {
        NativeSpend::Absent
    } else {
        NativeSpend::Foreign
    }
}

/// What becomes of the stored password after a sign-in.
#[derive(Debug, Clone, Copy, PartialEq, Eq, Structural)]
pub enum CredentialUpgrade {
    /// It is hashed anew with the present parameters.
    RehashNative,
    /// It takes the place of the one that the account was imported with.
    RehashForeign,
    /// It stays.
    Keep,
}

/// What becomes of the stored password after a sign-in: `drifted` says that its hash has other
/// parameters than are in use.
pub fn upgrade_credential_after_login(native_ok: bool, drifted: bool) -> (r: CredentialUpgrade)
    ensures
        r == (if !native_ok {
            CredentialUpgrade::RehashForeign
        } else if drifted {
            CredentialUpgrade::RehashNative
        } else {
            CredentialUpgrade::Keep
        }),
{
    if native_ok {
        if drifted {
            CredentialUpgrade::RehashNative
        } else {
            CredentialUpgrade::Keep
        }
    } else {
        CredentialUpgrade::RehashForeign
    }
}

/// What the first sign-in of an account that was kept elsewhere came to.
#[derive(Debug, PartialEq, Eq)]
pub enum MigrationOutcome {
    /// The account was made, and a session began.
    Begun(SessionCookies),
    /// The account was made, and may not sign in.
    Fenced,
    /// The account was made, and no session began because something failed.
    Fault,
    /// Nothing was made.
    Refused,
}

/// What is known of an attempt to sign in. What is absent was not done yet; an `Err` is a step
/// that failed.
pub struct LoginAttempt {
    pub form: LoginForm,
    /// The scope of the client that the form returns to.
    pub scope: Option<Scope>,
    pub headers: Headers,
    /// The origin of this service.
    pub self_origin: Option<String>,
    /// The account under the identifier.
    pub lookup: Option<Result<Option<UserRecord>, ()>>,
    /// There were too many attempts.
    pub throttled: Option<bool>,
    /// Whether the password is that of the account.
    pub native: Option<Result<bool, HashRejection>>,
    /// A verification was spent as on an account that is not there.
    pub absent: Option<Result<(), HashRejection>>,
    /// Whether the password is the one that the account was imported with.
    pub foreign: Option<bool>,
    /// The risk of the attempt is too high.
    pub blocked: Option<bool>,
    /// The session that began.
    pub session: Option<Result<SessionCookies, EstablishSessionError>>,
    /// There is a place where accounts were kept before.
    pub has_hook: bool,
    /// The account was verified there.
    pub hook: Option<bool>,
    pub migration: Option<MigrationOutcome>,
    /// The present time.
    pub now_micros: i64,
}

/// What comes next for an attempt to sign in.
#[derive(Debug, PartialEq, Eq)]
pub enum LoginStep {
    /// Answer with this notice.
    Notice(Notice),
    /// Look up the account.
    LookUp(String),
    /// Count the attempt, and see whether there were too many.
    Regulate { identifier: String, account: Option<String>, client_id: String },
    /// Answer with this page: there were too many.
    Throttled(LoginPage),
    /// Verify the password.
    Verify { password: String, hash: String },
    /// Spend a verification as on an account that is not there.
    SpendAbsent { password: String },
    /// Verify the password against the one that the account was imported with.
    VerifyForeign { password: String, hash: String },
    /// The password is right: upgrade it, and evaluate the risk.
    EvaluateRisk { user: String, native: bool },
    /// Record that the attempt was blocked, and answer with this page.
    Blocked(LoginPage),
    /// Begin a session, which is recorded with this sign-in.
    Establish { subject: String, event: AuthenticationEvent },
    /// Answer with this redirect.
    Resumed(Reply),
    /// Answer with this rejection.
    Rejected(Reply),
    /// Ask where accounts were kept before.
    AskHook { identifier: String, password: String },
    /// Make the account here.
    Migrate { identifier: String, password: String },
    /// Answer with this page.
    Failed(LoginPage),
}

/// The step is a notice that something failed.
pub open spec fn login_fault(step: LoginStep) -> bool {
    step matches LoginStep::Notice(n) && interaction::says(
        n,
        500,
        "Something went wrong"@,
        "The request could not be processed. Please try again."@,
    )
}

/// The step is the page of a failed sign-in.
pub open spec fn login_failed(
    step: LoginStep,
    identifier: Seq<char>,
    target: interaction::ResumeView,
) -> bool {
    step matches LoginStep::Failed(p) && p@ == failed_page(200, identifier, target)
}

/// The step is the redirect back, which sets these cookies.
pub open spec fn login_resumed(step: LoginStep, target: interaction::ResumeView, cookies: SessionCookies) -> bool {
    step matches LoginStep::Resumed(reply) && reply@ == interaction::redirect_with(
        target.return_to,
        cookies.values(),
    )
}

/// What comes next once the password turned out right: the risk is evaluated, and unless it is
/// too high a session begins, which is recorded with a password at the present time. Where the
/// account may not sign in after all, the attempt fails like one with a wrong password.
pub open spec fn after_password(
    a: LoginAttempt,
    user: UserRecord,
    native: bool,
    identifier: Seq<char>,
    target: interaction::ResumeView,
    step: LoginStep,
) -> bool {
    match a.blocked {
        None => step matches LoginStep::EvaluateRisk { user: u, native: n } && u@ == user.id@ && n
            == native,
        Some(true) => step matches LoginStep::Blocked(p) && p@ == failed_page(
            200,
            identifier,
            target,
        ),
        Some(false) => match a.session {
            None => step matches LoginStep::Establish { subject, event } && subject@ == user.id@
                && event.proves(seq![AuthMethod::Password], a.now_micros),
            Some(Err(EstablishSessionError::NotAuthenticatable)) => login_failed(
                step,
                identifier,
                target,
            ),
            Some(Err(EstablishSessionError::Store)) => login_fault(step),
            Some(Ok(cookies)) => login_resumed(step, target, cookies),
        },
    }
}

/// The password is verified against the one that the account was imported with.
pub open spec fn tries_foreign(a: LoginAttempt, user: UserRecord, step: LoginStep) -> bool {
    step matches LoginStep::VerifyForeign { password, hash } && password@ == given(
        text::opt_text(a.form.password),
    ) && text::opt_text(user.foreign_password_hash) == Some(hash@)
}

/// What comes next once the verification was spent. An account that may not sign in fails like a
/// wrong password, and where it has only an imported one, the verification is spent on that. An
/// imported password is tried where the account's own did not verify.
pub open spec fn after_spending(
    a: LoginAttempt,
    user: UserRecord,
    native: bool,
    identifier: Seq<char>,
    target: interaction::ResumeView,
    step: LoginStep,
) -> bool {
    if !user.can_authenticate {
        if spend_on(user) == NativeSpend::Foreign && a.foreign is None {
            tries_foreign(a, user, step)
        } else {
            login_failed(step, identifier, target)
        }
    } else if native {
        after_password(a, user, true, identifier, target, step)
    } else {
        match user.foreign_password_hash {
            None => login_failed(step, identifier, target),
            Some(_) => match a.foreign {
                None => tries_foreign(a, user, step),
                Some(true) => after_password(a, user, false, identifier, target, step),
                Some(false) => login_failed(step, identifier, target),
            },
        }
    }
}

/// What comes next for an account that is there: a verification is spent on it first.
pub open spec fn after_lookup(
    a: LoginAttempt,
    user: UserRecord,
    identifier: Seq<char>,
    target: interaction::ResumeView,
    step: LoginStep,
) -> bool {
    match spend_on(user) {
        NativeSpend::Verify => match a.native {
            None => step matches LoginStep::Verify { password, hash } && password@ == given(
                text::opt_text(a.form.password),
            ) && hash@ == user.password_hash@,
            Some(Err(rejection)) => step matches LoginStep::Rejected(reply) && reply@
                == rejection.response(),
            Some(Ok(native)) => after_spending(a, user, native, identifier, target, step),
        },
        NativeSpend::Absent => match a.absent {
            None => step matches LoginStep::SpendAbsent { password } && password@ == given(
                text::opt_text(a.form.password),
            ),
            Some(Err(rejection)) => step matches LoginStep::Rejected(reply) && reply@
                == rejection.response(),
            Some(Ok(_)) => after_spending(a, user, false, identifier, target, step),
        },
        NativeSpend::Foreign => after_spending(a, user, false, identifier, target, step),
    }
}

/// What comes next where the account was verified nowhere: a verification is spent, and the
/// attempt fails.
pub open spec fn after_absence(
    a: LoginAttempt,
    identifier: Seq<char>,
    target: interaction::ResumeView,
    step: LoginStep,
) -> bool {
    match a.absent {
        None => step matches LoginStep::SpendAbsent { password } && password@ == given(
            text::opt_text(a.form.password),
        ),
        Some(Err(rejection)) => step matches LoginStep::Rejected(reply) && reply@
            == rejection.response(),
        Some(Ok(_)) => login_failed(step, identifier, target),
    }
}

/// What comes next for an account that is not there: where accounts were kept elsewhere before,
/// it is verified there, and made here.
pub open spec fn without_account(
    a: LoginAttempt,
    identifier: Seq<char>,
    target: interaction::ResumeView,
    step: LoginStep,
) -> bool {
    if !a.has_hook {
        after_absence(a, identifier, target, step)
    } else {
        match a.hook {
            None => step matches LoginStep::AskHook { identifier: i, password } && i@ == identifier
                && password@ == given(text::opt_text(a.form.password)),
            Some(false) => after_absence(a, identifier, target, step),
            Some(true) => match a.migration {
                None => step matches LoginStep::Migrate { identifier: i, password } && i@
                    == identifier && password@ == given(text::opt_text(a.form.password)),
                Some(MigrationOutcome::Begun(cookies)) => login_resumed(step, target, cookies),
                Some(MigrationOutcome::Fenced) => login_failed(step, identifier, target),
                Some(MigrationOutcome::Fault) => login_fault(step),
                Some(MigrationOutcome::Refused) => after_absence(a, identifier, target, step),
            },
        }
    }
}

/// What comes next for an attempt to sign in: a request to return to, a form of our own, the
/// account, whether there were too many attempts, and then the account or its absence.
pub open spec fn login_follows(a: LoginAttempt, step: LoginStep) -> bool {
    let identifier = typed(text::opt_text(a.form.identifier));
    match resumed(text::opt_text(a.form.return_to), a.scope) {
        None => step matches LoginStep::Notice(n) && interaction::says(
            n,
            400,
            "Link no longer valid"@,
            "This sign-in link is missing or invalid. Start the sign-in from the application again."@,
        ),
        Some(target) => if !interaction::same_origin(a.headers@, text::opt_text(a.self_origin)) {
            step matches LoginStep::Notice(n) && interaction::says(
                n,
                403,
                "Request blocked"@,
                "This request could not be verified. Start the sign-in from the application again."@,
            )
        } else {
            match a.lookup {
                None => step matches LoginStep::LookUp(i) && i@ == identifier,
                Some(lookup) => match a.throttled {
                    None => step matches LoginStep::Regulate { identifier: i, account, client_id }
                        && i@ == identifier && client_id@ == target.client_id && text::opt_text(
                        account,
                    ) == (match lookup {
                        Ok(Some(user)) => Some(user.id@),
                        _ => None,
                    }),
                    Some(true) => step matches LoginStep::Throttled(p) && p@ == failed_page(
                        429,
                        identifier,
                        target,
                    ),
                    Some(false) => match lookup {
                        Err(_) => login_fault(step),
                        Ok(None) => without_account(a, identifier, target, step),
                        Ok(Some(user)) => after_lookup(a, user, identifier, target, step),
                    },
                },
            }
        },
    }
}

/// The step behind [`after_password`].
fn settle(a: &LoginAttempt, user: &UserRecord, native: bool, identifier: String, target: ResumeTarget) -> (r:
    LoginStep)
    ensures
        after_password(*a, *user, native, identifier@, target@, r),
{
    match a.blocked {
        None => return LoginStep::EvaluateRisk { user: user.id.clone(), native },
        Some(true) => return LoginStep::Blocked(failed_login_page(identifier, target)),
        Some(false) => {},
    }
    match &a.session {
        None => LoginStep::Establish {
            subject: user.id.clone(),
            event: AuthenticationEvent::password(a.now_micros),
        },
        Some(Err(EstablishSessionError::NotAuthenticatable)) => LoginStep::Failed(
            failed_login_page(identifier, target),
        ),
        Some(Err(EstablishSessionError::Store)) => LoginStep::Notice(
            interaction::server_error_page(),
        ),
        Some(Ok(cookies)) => LoginStep::Resumed(
            interaction::redirect_setting_cookie(target.return_to.as_str(), cookies),
        ),
    }
}

/// The step behind [`tries_foreign`].
fn try_foreign(a: &LoginAttempt, user: &UserRecord, hash: &String) -> (r: LoginStep)
    requires
        user.foreign_password_hash == Some(*hash),
    ensures
        tries_foreign(*a, *user, r),
{
    LoginStep::VerifyForeign { password: given_text(&a.form.password), hash: hash.clone() }
}

/// The step behind [`after_spending`].
fn check_account(
    a: &LoginAttempt,
    user: &UserRecord,
    native: bool,
    identifier: String,
    target: ResumeTarget,
) -> (r: LoginStep)
    ensures
        after_spending(*a, *user, native, identifier@, target@, r),
{
    if !user.can_authenticate {
        if !user.has_usable_password_hash && a.foreign.is_none() {
            match &user.foreign_password_hash {
                Some(hash) => return try_foreign(a, user, hash),
                None => {},
            }
        }
        return LoginStep::Failed(failed_login_page(identifier, target));
    }
    if native {
        return settle(a, user, true, identifier, target);
    }
    match &user.foreign_password_hash {
        None => LoginStep::Failed(failed_login_page(identifier, target)),
        Some(hash) => match a.foreign {
            None => try_foreign(a, user, hash),
            Some(true) => settle(a, user, false, identifier, target),
            Some(false) => LoginStep::Failed(failed_login_page(identifier, target)),
        },
    }
}

/// The step behind [`after_lookup`].
fn spend(a: &LoginAttempt, user: &UserRecord, identifier: String, target: ResumeTarget) -> (r:
    LoginStep)
    ensures
        after_lookup(*a, *user, identifier@, target@, r),
{
    match spend_native_verify(user) {
        NativeSpend::Verify => match &a.native {
            None => LoginStep::Verify {
                password: given_text(&a.form.password),
                hash: user.password_hash.clone(),
            },
            Some(Err(rejection)) => LoginStep::Rejected(rejection.to_response()),
            Some(Ok(native)) => check_account(a, user, *native, identifier, target),
        },
        NativeSpend::Absent => match &a.absent {
            None => LoginStep::SpendAbsent { password: given_text(&a.form.password) },
            Some(Err(rejection)) => LoginStep::Rejected(rejection.to_response()),
            Some(Ok(_)) => check_account(a, user, false, identifier, target),
        },
        NativeSpend::Foreign => check_account(a, user, false, identifier, target),
    }
}

/// The step behind [`after_absence`].
fn fail_absent(a: &LoginAttempt, identifier: String, target: ResumeTarget) -> (r: LoginStep)
    ensures
        after_absence(*a, identifier@, target@, r),
{
    match &a.absent {
        None => LoginStep::SpendAbsent { password: given_text(&a.form.password) },
        Some(Err(rejection)) => LoginStep::Rejected(rejection.to_response()),
        Some(Ok(_)) => LoginStep::Failed(failed_login_page(identifier, target)),
    }
}

/// The step behind [`without_account`].
fn try_migration(a: &LoginAttempt, identifier: String, target: ResumeTarget) -> (r: LoginStep)
    ensures
        without_account(*a, identifier@, target@, r),
{
    if !a.has_hook {
        return fail_absent(a, identifier, target);
    }
    match a.hook {
        None => return LoginStep::AskHook { identifier, password: given_text(&a.form.password) },
        Some(false) => return fail_absent(a, identifier, target),
        Some(true) => {},
    }
    match &a.migration {
        None => LoginStep::Migrate { identifier, password: given_text(&a.form.password) },
        Some(MigrationOutcome::Begun(cookies)) => LoginStep::Resumed(
            interaction::redirect_setting_cookie(target.return_to.as_str(), cookies),
        ),
        Some(MigrationOutcome::Fenced) => LoginStep::Failed(failed_login_page(identifier, target)),
        Some(MigrationOutcome::Fault) => LoginStep::Notice(interaction::server_error_page()),
        Some(MigrationOutcome::Refused) => fail_absent(a, identifier, target),
    }
}

/// What comes next for an attempt to sign in, from what is known of it.
pub fn login_post(a: &LoginAttempt) -> (r: LoginStep)
    ensures
        login_follows(*a, r),
{
    let target = match resume(&a.form.return_to, &a.scope) {
        Some(target) => target,
        None => return LoginStep::Notice(interaction::invalid_link_page()),
    };
    if !interaction::same_origin_ok(&a.headers, hints::borrowed(&a.self_origin)) {
        return LoginStep::Notice(interaction::forbidden_page());
    }
    let identifier: String = typed_text(&a.form.identifier);
    let lookup = match &a.lookup {
        None => return LoginStep::LookUp(identifier),
        Some(lookup) => lookup,
    };
    match a.throttled {
        None => {
            let account: Option<String> = match lookup {
                Ok(Some(user)) => Some(user.id.clone()),
                _ => None,
            };
            return LoginStep::Regulate { identifier, account, client_id: target.client_id };
        },
        Some(true) => return LoginStep::Throttled(throttled_login_page(identifier, target)),
        Some(false) => {},
    }
    match lookup {
        Err(_) => LoginStep::Notice(interaction::server_error_page()),
        Ok(None) => try_migration(a, identifier, target),
        Ok(Some(user)) => spend(a, user, identifier, target),
    }
}

/// The failures before an attempt are forgotten with it: once a session began, and once an account
/// that was kept elsewhere was made here, whether a session began for that or not.
pub open spec fn relaxes(a: LoginAttempt) -> bool {
    ||| a.session matches Some(Ok(_))
    ||| (a.migration is Some && a.migration != Some(MigrationOutcome::Refused))
}

/// Whether the failures before an attempt are forgotten with it.
pub fn forgets_failures(a: &LoginAttempt) -> (r: bool)
    ensures
        r == relaxes(*a),
{
    let begun: bool = match &a.session {
        Some(Ok(_)) => true,
        _ => false,
    };
    let migrated: bool = match &a.migration {
        None => false,
        Some(MigrationOutcome::Refused) => false,
        Some(_) => true,
    };
    begun || migrated
}

// ---------------------------------------------------------------------------
// The first sign-in of an account that was kept elsewhere
// ---------------------------------------------------------------------------

/// The schema that traits are validated against, and what it says of them.
#[derive(Debug, Clone, Copy, PartialEq, Eq, Structural)]
pub struct SchemaVerdict {
    pub version: i32,
    /// The schema itself can be read.
    pub compiled: bool,
    /// It has nothing against the traits.
    pub valid: bool,
}

/// An account to be made. It is active, has a password of its own, and no claims: what it was
/// known as elsewhere vouches for none.
#[derive(Debug, PartialEq, Eq)]
pub struct MigratedUser {
    pub identifier: String,
    pub password_hash: String,
    pub traits_json: Option<String>,
    pub traits_schema_version: Option<i32>,
}

/// What is known of a migration. What is absent was not done yet; an `Err` is a step that failed.
pub struct Migration {
    pub identifier: String,
    /// The hash of the password.
    pub hash: Option<Result<String, ()>>,
    /// The traits that came with the account.
    pub traits: Option<serde_json::Value>,
    /// The active schema, where there is one.
    pub schema: Option<Result<Option<SchemaVerdict>, ()>>,
    /// The identifier of the account that was made.
    pub created: Option<Result<String, ()>>,
    pub session: Option<Result<SessionCookies, EstablishSessionError>>,
    /// The present time.
    pub now_micros: i64,
}

/// What comes next for a migration.
#[derive(Debug, PartialEq, Eq)]
pub enum MigrationStep {
    /// Hash the password.
    Hash,
    /// Load the active schema, and validate the traits against it.
    LoadSchema,
    /// Make the account.
    Create(MigratedUser),
    /// Begin a session, which is recorded with this sign-in.
    Establish { subject: String, event: AuthenticationEvent },
    /// A session began.
    Begun,
    /// An account was made that may not sign in.
    Fenced,
    /// An account was made, but no session began because something failed.
    Fault,
    /// Nothing is made.
    Refused,
}

/// The account is made with these traits: the text of what came with it and the version of the
/// schema that has nothing against it, or neither.
pub open spec fn creates(
    step: MigrationStep,
    m: Migration,
    hash: Seq<char>,
    traits: Option<Seq<char>>,
    version: Option<i32>,
) -> bool {
    step matches MigrationStep::Create(user) && user.identifier@ == m.identifier@
        && user.password_hash@ == hash && text::opt_text(user.traits_json) == traits
        && user.traits_schema_version == version
}

/// What comes next once the traits are settled. The session is recorded with a password at the
/// present time.
pub open spec fn after_traits(
    m: Migration,
    hash: Seq<char>,
    traits: Option<Seq<char>>,
    version: Option<i32>,
    step: MigrationStep,
) -> bool {
    match m.created {
        None => creates(step, m, hash, traits, version),
        Some(Err(_)) => step is Refused,
        Some(Ok(id)) => match m.session {
            None => step matches MigrationStep::Establish { subject, event } && subject@ == id@
                && event.proves(seq![AuthMethod::Password], m.now_micros),
            Some(Ok(_)) => step is Begun,
            Some(Err(EstablishSessionError::NotAuthenticatable)) => step is Fenced,
            Some(Err(EstablishSessionError::Store)) => step is Fault,
        },
    }
}

/// What comes next for a migration: without a schema the traits are dropped, and traits that the
/// schema does not accept refuse the whole.
pub open spec fn migration_follows(m: Migration, step: MigrationStep) -> bool {
    match m.hash {
        None => step is Hash,
        Some(Err(_)) => step is Refused,
        Some(Ok(hash)) => match m.traits {
            None => after_traits(m, hash@, None, None, step),
            Some(traits) => match m.schema {
                None => step is LoadSchema,
                Some(Err(_)) => step is Refused,
                Some(Ok(None)) => after_traits(m, hash@, None, None, step),
                Some(Ok(Some(verdict))) => if !verdict.compiled || !verdict.valid {
                    step is Refused
                } else {
                    after_traits(
                        m,
                        hash@,
                        json::json_serialized(traits),
                        Some(verdict.version),
                        step,
                    )
                },
            },
        },
    }
}

/// What comes next once the traits are settled.
pub fn create(m: &Migration, hash: &String, traits_json: Option<String>, version: Option<i32>) -> (r:
    MigrationStep)
    ensures
        after_traits(*m, hash@, text::opt_text(traits_json), version, r),
{
    match &m.created {
        None => MigrationStep::Create(
            MigratedUser {
                identifier: m.identifier.clone(),
                password_hash: hash.clone(),
                traits_json,
                traits_schema_version: version,
            },
        ),
        Some(Err(_)) => MigrationStep::Refused,
        Some(Ok(id)) => match &m.session {
            None => MigrationStep::Establish {
                subject: id.clone(),
                event: AuthenticationEvent::password(m.now_micros),
            },
            Some(Ok(_)) => MigrationStep::Begun,
            Some(Err(EstablishSessionError::NotAuthenticatable)) => MigrationStep::Fenced,
            Some(Err(EstablishSessionError::Store)) => MigrationStep::Fault,
        },
    }
}

/// What comes next for a migration, from what is known of it.
pub fn complete_lazy_migration(m: &Migration) -> (r: MigrationStep)
    ensures
        migration_follows(*m, r),
{
    let hash = match &m.hash {
        None => return MigrationStep::Hash,
        Some(Err(_)) => return MigrationStep::Refused,
        Some(Ok(hash)) => hash,
    };
    match &m.traits {
        None => create(m, hash, None, None),
        Some(traits) => match &m.schema {
            None => MigrationStep::LoadSchema,
            Some(Err(_)) => MigrationStep::Refused,
            Some(Ok(None)) => create(m, hash, None, None),
            Some(Ok(Some(verdict))) => {
                if !verdict.compiled || !verdict.valid {
                    return MigrationStep::Refused;
                }
                create(m, hash, json::serialized(traits), Some(verdict.version))
            },
        },
    }
}

// ---------------------------------------------------------------------------
// The second factor
// ---------------------------------------------------------------------------

/// How devices are remembered.
#[derive(Debug, Clone, Copy, PartialEq, Eq, Structural)]
pub struct TrustedDevices {
    pub enabled: bool,
    /// It is for the user to choose.
    pub user_opt_in: bool,
}

/// Whether the page offers to remember the device: where that is on, and for the user to choose.
pub fn remember_device_offered(devices: TrustedDevices) -> (r: bool)
    ensures
        r == (devices.enabled && devices.user_opt_in),
{
    devices.enabled && devices.user_opt_in
}

/// The box is checked.
pub open spec fn opted_in(value: Option<Seq<char>>) -> bool {
    value matches Some(v) && (v == "1"@ || v == "on"@ || v == "true"@)
}

/// Whether to remember the device: where that is on, and the user chose it or has no choice.
pub fn should_remember_device(devices: TrustedDevices, choice: Option<&str>) -> (r: bool)
    ensures
        r == (devices.enabled && (devices.user_opt_in ==> opted_in(text::opt_str(choice)))),
{
    if !devices.enabled {
        return false;
    }
    let chosen: bool = match choice {
        Some(v) => text::same(v, "1") || text::same(v, "on") || text::same(v, "true"),
        None => false,
    };
    if devices.user_opt_in && !chosen {
        return false;
    }
    true
}

/// A response that plants the cookie of a remembered device, where there is one.
pub fn maybe_remember_device(response: Reply, cookie: Option<&str>) -> (r: Reply)
    ensures
        r@ == (match cookie {
            Some(c) => (reply::ReplyView {
                headers: response@.headers.push(("set-cookie"@, c@)),
                ..response@
            }),
            None => response@,
        }),
{
    match cookie {
        Some(c) => interaction::append_set_cookie(response, c),
        None => response,
    }
}

/// The page that asks for a second factor.
#[derive(Debug, PartialEq, Eq)]
pub struct ChallengePage {
    pub status: u16,
    pub return_to: String,
    pub error: Option<&'static str>,
    /// Where a second factor can be enrolled.
    pub enroll_url: Option<String>,
    /// The page offers to remember the device.
    pub remember: bool,
    pub hints: InteractionHints,
}

/// The model of a [`ChallengePage`].
pub struct ChallengeView {
    pub status: u16,
    pub return_to: Seq<char>,
    pub error: Option<Seq<char>>,
    pub enroll_url: Option<Seq<char>>,
    pub remember: bool,
    pub hints: hints::HintsView,
}

impl View for ChallengePage {
    type V = ChallengeView;

    open spec fn view(&self) -> ChallengeView {
        ChallengeView {
            status: self.status,
            return_to: self.return_to@,
            error: text::opt_str(self.error),
            enroll_url: text::opt_text(self.enroll_url),
            remember: self.remember,
            hints: self.hints@,
        }
    }
}

/// The page that asks for a second factor.
pub open spec fn challenge(
    status: u16,
    target: interaction::ResumeView,
    error: Option<Seq<char>>,
    enroll_url: Option<Seq<char>>,
    remember: bool,
) -> ChallengeView {
    ChallengeView {
        status,
        return_to: target.return_to,
        error,
        enroll_url,
        remember,
        hints: target.hints,
    }
}

/// Where a second factor is enrolled.
pub open spec fn enroll_path(scope: Scope) -> Seq<char> {
    scope_path(scope.tenant@, scope.environment@) + "/account/mfa/totp/enroll"@
}

/// What comes next for the page, or for the form, of the second factor.
#[derive(Debug, PartialEq, Eq)]
pub enum ChallengeStep {
    /// Answer with this notice.
    Notice(Notice),
    /// Find the session.
    FindSession,
    /// Answer with this redirect.
    Redirect(Reply),
    /// Answer with this page.
    Page(ChallengePage),
    /// Count the attempt of this subject, and see whether there were too many.
    Regulate(String),
    /// Verify this code.
    Verify { subject: String, code: String },
    /// Begin a session in place of the present one, which is recorded with this sign-in.
    Establish { subject: String, event: AuthenticationEvent },
    /// Answer with this redirect, once the device was remembered or not.
    Resumed { reply: Reply, remember: bool },
}

/// There is nothing to return to.
pub open spec fn challenge_invalid(step: ChallengeStep) -> bool {
    step matches ChallengeStep::Notice(n) && interaction::says(
        n,
        400,
        "Link no longer valid"@,
        "This sign-in link is missing or invalid. Start the sign-in from the application again."@,
    )
}

/// Something failed.
pub open spec fn challenge_fault(step: ChallengeStep) -> bool {
    step matches ChallengeStep::Notice(n) && interaction::says(
        n,
        500,
        "Something went wrong"@,
        "The request could not be processed. Please try again."@,
    )
}

/// The page that asks for a second factor. Without a session the user signs in first. `session`
/// says whether there is one; it is absent where that was not looked up yet.
pub fn mfa_challenge_get(
    query: &MfaChallengeQuery,
    scope: &Option<Scope>,
    session: Option<bool>,
    devices: TrustedDevices,
) -> (r: ChallengeStep)
    ensures
        match resumed(text::opt_text(query.return_to), *scope) {
            None => challenge_invalid(r),
            Some(target) => match session {
                None => r is FindSession,
                Some(false) => r matches ChallengeStep::Redirect(reply) && reply@
                    == interaction::redirect_to(
                    interaction::page_url(interaction::LOGIN_PATH@, target.return_to),
                ),
                Some(true) => r matches ChallengeStep::Page(p) && p@ == challenge(
                    200,
                    target,
                    None,
                    if text::opt_text(query.enroll) == Some("1"@) {
                        Some(enroll_path(scope->0))
                    } else {
                        None
                    },
                    devices.enabled && devices.user_opt_in,
                ),
            },
        },
{
    let target = match resume(&query.return_to, scope) {
        Some(target) => target,
        None => return ChallengeStep::Notice(interaction::invalid_link_page()),
    };
    match session {
        None => return ChallengeStep::FindSession,
        Some(false) => return ChallengeStep::Redirect(
            interaction::login_redirect(target.return_to.as_str()),
        ),
        Some(true) => {},
    }
    let enroll: bool = match &query.enroll {
        Some(value) => text::same(value.as_str(), "1"),
        None => false,
    };
    let enroll_url: Option<String> = match scope {
        Some(s) => if enroll {
            let mut url = path_of(s);
            url.append("/account/mfa/totp/enroll");
            Some(url)
        } else {
            None
        },
        None => None,
    };
    ChallengeStep::Page(
        ChallengePage {
            status: 200,
            return_to: target.return_to,
            error: None,
            enroll_url,
            remember: remember_device_offered(devices),
            hints: target.hints,
        },
    )
}

/// What verifying a second factor gave.
#[derive(Debug, Clone, Copy, PartialEq, Eq, Structural)]
pub enum SecondFactorOutcome {
    Totp,
    Recovery,
    Invalid,
    /// It could not be verified at present.
    Unavailable,
    /// Something failed.
    Error,
}

/// The methods of a session once another one was used: each is there once.
pub open spec fn combined(methods: Seq<AuthMethod>, new: AuthMethod) -> Seq<AuthMethod> {
    if methods.contains(new) {
        methods
    } else {
        methods.push(new)
    }
}

/// The methods of a session once another one was used.
pub fn combine(methods: Vec<AuthMethod>, new: AuthMethod) -> (r: Vec<AuthMethod>)
    ensures
        r@ == combined(methods@, new),
{
    let mut i: usize = 0;
    while i < methods.len()
        invariant
            i <= methods@.len(),
            forall|k: int| 0 <= k < i ==> methods@[k] != new,
        decreases methods@.len() - i,
    {
        if methods[i] == new {
            assert(methods@[i as int] == new);
            return methods;
        }
        i = i + 1;
    }
    let mut methods = methods;
    methods.push(new);
    methods
}

/// What is known of the form with the second factor. What is absent was not done yet; an `Err` is
/// a step that failed.
pub struct Challenge {
    pub form: MfaChallengeForm,
    pub scope: Option<Scope>,
    pub headers: Headers,
    pub self_origin: Option<String>,
    pub devices: TrustedDevices,
    /// The session, where there is one.
    pub session: Option<Option<AuthenticatedSession>>,
    /// The subject of the session is a user of this scope.
    pub subject_in_scope: bool,
    /// There were too many attempts.
    pub throttled: Option<bool>,
    /// What verifying the code gave.
    pub outcome: Option<SecondFactorOutcome>,
    /// The session that began.
    pub established: Option<Result<SessionCookies, EstablishSessionError>>,
    /// The present time.
    pub now_micros: i64,
}

/// What the page says where there is no code.
pub const ENTER_A_CODE: &'static str = "Enter a code to continue.";

/// What the page says where the code does not verify.
pub const INCORRECT_CODE: &'static str = "Incorrect or expired code.";

/// What the page says where there were too many attempts.
pub const TOO_MANY_ATTEMPTS: &'static str = "Too many attempts. Wait a moment and try again.";

/// The page is that of a code that does not verify.
pub open spec fn wrong_code(c: Challenge, target: interaction::ResumeView, step: ChallengeStep) -> bool {
    step matches ChallengeStep::Page(p) && p@ == challenge(
        200,
        target,
        Some(INCORRECT_CODE@),
        None,
        c.devices.enabled && c.devices.user_opt_in,
    )
}

/// What comes next once the code verified: a session with the methods of both, and the present
/// time, takes the place of the present one. An account that may no longer sign in is answered like a wrong code.
pub open spec fn after_code(
    c: Challenge,
    session: AuthenticatedSession,
    new: AuthMethod,
    target: interaction::ResumeView,
    step: ChallengeStep,
) -> bool {
    match c.established {
        None => step matches ChallengeStep::Establish { subject, event } && subject@
            == session.subject@ && event.proves(
            combined(authn::methods_of(text::words(session.auth_methods@)), new),
            c.now_micros,
        ),
        Some(Err(EstablishSessionError::NotAuthenticatable)) => wrong_code(c, target, step),
        Some(Err(EstablishSessionError::Store)) => challenge_fault(step),
        Some(Ok(cookies)) => step matches ChallengeStep::Resumed { reply, remember } && reply@
            == interaction::redirect_with(target.return_to, cookies.values()) && remember == (
        c.devices.enabled && (c.devices.user_opt_in ==> opted_in(
            text::opt_text(c.form.remember_device),
        ))),
    }
}

/// What comes next once the session was found: a code has to be there, and not too many were
/// tried.
pub open spec fn after_session(
    c: Challenge,
    session: AuthenticatedSession,
    target: interaction::ResumeView,
    step: ChallengeStep,
) -> bool {
    let code = typed(text::opt_text(c.form.code));
    let offered = c.devices.enabled && c.devices.user_opt_in;
    if !c.subject_in_scope {
        challenge_fault(step)
    } else if code.len() == 0 {
        step matches ChallengeStep::Page(p) && p@ == challenge(
            200,
            target,
            Some(ENTER_A_CODE@),
            None,
            offered,
        )
    } else {
        match c.throttled {
            None => step matches ChallengeStep::Regulate(s) && s@ == session.subject@,
            Some(true) => step matches ChallengeStep::Page(p) && p@ == challenge(
                429,
                target,
                Some(TOO_MANY_ATTEMPTS@),
                None,
                false,
            ),
            Some(false) => match c.outcome {
                None => step matches ChallengeStep::Verify { subject, code: given } && subject@
                    == session.subject@ && given@ == code,
                Some(SecondFactorOutcome::Invalid) => wrong_code(c, target, step),
                Some(SecondFactorOutcome::Unavailable) => challenge_fault(step),
                Some(SecondFactorOutcome::Error) => challenge_fault(step),
                Some(SecondFactorOutcome::Totp) => after_code(
                    c,
                    session,
                    AuthMethod::Totp,
                    target,
                    step,
                ),
                Some(SecondFactorOutcome::Recovery) => after_code(
                    c,
                    session,
                    AuthMethod::RecoveryCode,
                    target,
                    step,
                ),
            },
        }
    }
}

/// What comes next for the form with the second factor: a request to return to, a form of our
/// own, a session, and then the code.
pub open spec fn challenge_follows(c: Challenge, step: ChallengeStep) -> bool {
    match resumed(text::opt_text(c.form.return_to), c.scope) {
        None => challenge_invalid(step),
        Some(target) => if !interaction::same_origin(c.headers@, text::opt_text(c.self_origin)) {
            step matches ChallengeStep::Notice(n) && interaction::says(
                n,
                403,
                "Request blocked"@,
                "This request could not be verified. Start the sign-in from the application again."@,
            )
        } else {
            match c.session {
                None => step is FindSession,
                Some(None) => step matches ChallengeStep::Redirect(reply) && reply@
                    == interaction::redirect_to(
                    interaction::page_url(interaction::LOGIN_PATH@, target.return_to),
                ),
                Some(Some(session)) => after_session(c, session, target, step),
            }
        },
    }
}

/// The step behind [`after_code`].
fn step_up(c: &Challenge, session: &AuthenticatedSession, new: AuthMethod, target: ResumeTarget) -> (r:
    ChallengeStep)
    ensures
        after_code(*c, *session, new, target@, r),
{
    match &c.established {
        None => ChallengeStep::Establish {
            subject: session.subject.clone(),
            event: AuthenticationEvent::from_methods(
                combine(authn::parse_methods(session.auth_methods.as_str()), new),
                c.now_micros,
            ),
        },
        Some(Err(EstablishSessionError::NotAuthenticatable)) => ask_again(
            200,
            target,
            INCORRECT_CODE,
            remember_device_offered(c.devices),
        ),
        Some(Err(EstablishSessionError::Store)) => ChallengeStep::Notice(
            interaction::server_error_page(),
        ),
        Some(Ok(cookies)) => ChallengeStep::Resumed {
            reply: interaction::redirect_setting_cookie(target.return_to.as_str(), cookies),
            remember: should_remember_device(
                c.devices,
                hints::borrowed(&c.form.remember_device),
            ),
        },
    }
}

/// The page that asks for a second factor once more.
fn ask_again(status: u16, target: ResumeTarget, error: &'static str, remember: bool) -> (r:
    ChallengeStep)
    ensures
        r matches ChallengeStep::Page(p) && p@ == challenge(
            status,
            target@,
            Some(error@),
            None,
            remember,
        ),
{
    ChallengeStep::Page(
        ChallengePage {
            status,
            return_to: target.return_to,
            error: Some(error),
            enroll_url: None,
            remember,
            hints: target.hints,
        },
    )
}

/// The step behind [`after_session`].
fn check_code(c: &Challenge, session: &AuthenticatedSession, target: ResumeTarget) -> (r:
    ChallengeStep)
    ensures
        after_session(*c, *session, target@, r),
{
    if !c.subject_in_scope {
        return ChallengeStep::Notice(interaction::server_error_page());
    }
    let code: String = typed_text(&c.form.code);
    let offered: bool = remember_device_offered(c.devices);
    if code.as_str().is_empty() {
        return ask_again(200, target, ENTER_A_CODE, offered);
    }
    match c.throttled {
        None => return ChallengeStep::Regulate(session.subject.clone()),
        Some(true) => return ask_again(429, target, TOO_MANY_ATTEMPTS, false),
        Some(false) => {},
    }
    match c.outcome {
        None => ChallengeStep::Verify { subject: session.subject.clone(), code },
        Some(SecondFactorOutcome::Invalid) => ask_again(200, target, INCORRECT_CODE, offered),
        Some(SecondFactorOutcome::Unavailable) => ChallengeStep::Notice(
            interaction::server_error_page(),
        ),
        Some(SecondFactorOutcome::Error) => ChallengeStep::Notice(interaction::server_error_page()),
        Some(SecondFactorOutcome::Totp) => step_up(c, session, AuthMethod::Totp, target),
        Some(SecondFactorOutcome::Recovery) => step_up(
            c,
            session,
            AuthMethod::RecoveryCode,
            target,
        ),
    }
}

/// What comes next for the form with the second factor, from what is known of it.
pub fn mfa_challenge_post(c: &Challenge) -> (r: ChallengeStep)
    ensures
        challenge_follows(*c, r),
{
    let target = match resume(&c.form.return_to, &c.scope) {
        Some(target) => target,
        None => return ChallengeStep::Notice(interaction::invalid_link_page()),
    };
    if !interaction::same_origin_ok(&c.headers, hints::borrowed(&c.self_origin)) {
        return ChallengeStep::Notice(interaction::forbidden_page());
    }
    match &c.session {
        None => ChallengeStep::FindSession,
        Some(None) => ChallengeStep::Redirect(
            interaction::login_redirect(target.return_to.as_str()),
        ),
        Some(Some(session)) => check_code(c, session, target),
    }
}

// ---------------------------------------------------------------------------
// Laws
// ---------------------------------------------------------------------------

/// The page of an attempt that came to nothing.
pub open spec fn page_of_failure(step: LoginStep) -> Option<LoginPageView> {
    match step {
        LoginStep::Failed(p) => Some(p@),
        LoginStep::Blocked(p) => Some(p@),
        _ => None,
    }
}

/// Two attempts with one form that come to nothing are answered with one page, whatever is known
/// of the account: it is there or not, it may sign in or not, the password is wrong, or the risk
/// is too high.
pub proof fn law_failures_look_alike(a: LoginAttempt, b: LoginAttempt, first: LoginStep, second: LoginStep)
    requires
        login_follows(a, first),
        login_follows(b, second),
        a.form == b.form,
        a.scope == b.scope,
        page_of_failure(first) is Some,
        page_of_failure(second) is Some,
    ensures
        page_of_failure(first) == page_of_failure(second),
{
}

/// Too many attempts are answered in one way too, whether the account is there or not.
pub proof fn law_a_throttle_tells_nothing(a: LoginAttempt, b: LoginAttempt, first: LoginStep, second: LoginStep)
    requires
        login_follows(a, first),
        login_follows(b, second),
        a.form == b.form,
        a.scope == b.scope,
        first is Throttled,
        second is Throttled,
    ensures
        first->Throttled_0@ == second->Throttled_0@,
{
}

/// An attempt fails only once a verification was spent on it, or once an account was made with the
/// hash of its password.
pub proof fn law_a_failure_spends_a_verification(a: LoginAttempt, step: LoginStep)
    requires
        login_follows(a, step),
        page_of_failure(step) is Some,
    ensures
        a.native matches Some(Ok(_)) || a.absent matches Some(Ok(_)) || a.foreign is Some
            || a.migration == Some(MigrationOutcome::Fenced),
{
}

/// An account is said to be made and not to sign in only once its password was hashed.
pub proof fn law_a_fenced_migration_hashed_the_password(m: Migration, step: MigrationStep)
    requires
        migration_follows(m, step),
        step is Fenced,
    ensures
        m.hash matches Some(Ok(_)) && m.created matches Some(Ok(_)),
        m.session == Some(Err::<SessionCookies, EstablishSessionError>(
            EstablishSessionError::NotAuthenticatable,
        )),
{
}

/// An attempt that would have signed in, but for an account that may not, is answered with the page
/// of a wrong password, and never with that of a fault.
pub proof fn law_a_fenced_account_looks_like_a_wrong_password(
    a: LoginAttempt,
    cookies: SessionCookies,
    b: LoginAttempt,
    would: LoginStep,
    fenced: LoginStep,
    wrong: LoginStep,
)
    requires
        a.lookup matches Some(Ok(Some(_))),
        login_follows((LoginAttempt { session: Some(Ok(cookies)), ..a }), would),
        would is Resumed,
        login_follows(
            (LoginAttempt {
                session: Some(Err(EstablishSessionError::NotAuthenticatable)),
                ..a
            }),
            fenced,
        ),
        login_follows(b, wrong),
        wrong is Failed,
        b.form == a.form,
        b.scope == a.scope,
    ensures
        fenced is Failed,
        fenced->Failed_0@ == wrong->Failed_0@,
{
}

/// A right code of an account that may no longer sign in is answered with the page of a wrong code,
/// and never with that of a fault.
pub proof fn law_a_fenced_account_looks_like_a_wrong_code(
    c: Challenge,
    cookies: SessionCookies,
    would: ChallengeStep,
    fenced: ChallengeStep,
    wrong: ChallengeStep,
)
    requires
        challenge_follows((Challenge { established: Some(Ok(cookies)), ..c }), would),
        would is Resumed,
        challenge_follows(
            (Challenge {
                established: Some(Err(EstablishSessionError::NotAuthenticatable)),
                ..c
            }),
            fenced,
        ),
        challenge_follows(
            (Challenge { outcome: Some(SecondFactorOutcome::Invalid), ..c }),
            wrong,
        ),
    ensures
        fenced is Page,
        wrong is Page,
        fenced->Page_0@ == wrong->Page_0@,
{
}

/// A session begins only for an account that is there, that may sign in, whose password was
/// verified, and whose attempt was neither one too many nor too much of a risk.
pub proof fn law_a_session_needs_a_verified_password(a: LoginAttempt, step: LoginStep)
    requires
        login_follows(a, step),
        step is Establish,
    ensures
        a.lookup matches Some(Ok(Some(user))) && user.can_authenticate && step->subject@
            == user.id@ && ((spend_on(user) == NativeSpend::Verify && a.native
            == Some(Ok::<bool, HashRejection>(true))) || (user.foreign_password_hash is Some
            && a.foreign == Some(true))),
        a.throttled == Some(false),
        a.blocked == Some(false),
        interaction::same_origin(a.headers@, text::opt_text(a.self_origin)),
{
}

/// A session that begins with a password is recorded as one, at the time of the sign-in, whether
/// the account was here before or not.
pub proof fn law_a_password_is_recorded_as_one(
    a: LoginAttempt,
    step: LoginStep,
    m: Migration,
    made: MigrationStep,
)
    requires
        login_follows(a, step),
        migration_follows(m, made),
    ensures
        step is Establish ==> step->event.proves(seq![AuthMethod::Password], a.now_micros),
        made is Establish ==> made->event.proves(seq![AuthMethod::Password], m.now_micros),
{
}

/// An attempt that is answered with the redirect forgets the failures before it.
pub proof fn law_a_sign_in_forgets_failures(a: LoginAttempt, step: LoginStep)
    requires
        login_follows(a, step),
        step is Resumed,
    ensures
        relaxes(a),
{
}

/// A form that was sent from another site comes to a notice, and to nothing else.
pub proof fn law_a_form_of_another_site_comes_to_nothing(
    a: LoginAttempt,
    login: LoginStep,
    c: Challenge,
    challenge: ChallengeStep,
)
    requires
        login_follows(a, login),
        !interaction::same_origin(a.headers@, text::opt_text(a.self_origin)),
        challenge_follows(c, challenge),
        !interaction::same_origin(c.headers@, text::opt_text(c.self_origin)),
    ensures
        login is Notice,
        challenge is Notice,
{
}

/// On an attempt too many no verification is spent.
pub proof fn law_an_attempt_too_many_spends_nothing(
    a: LoginAttempt,
    login: LoginStep,
    c: Challenge,
    challenge: ChallengeStep,
)
    requires
        login_follows(a, login),
        a.throttled != Some(false),
        challenge_follows(c, challenge),
        c.throttled != Some(false),
    ensures
        !(login is Verify) && !(login is SpendAbsent) && !(login is VerifyForeign),
        !(challenge is Verify),
{
}

/// Traits are kept only where the active schema has nothing against them.
pub proof fn law_only_validated_traits_are_kept(m: Migration, step: MigrationStep)
    requires
        migration_follows(m, step),
        step is Create,
        step->Create_0.traits_json is Some || step->Create_0.traits_schema_version is Some,
    ensures
        m.schema matches Some(Ok(Some(verdict))) && verdict.compiled && verdict.valid
            && step->Create_0.traits_schema_version == Some(verdict.version),
        m.traits is Some && text::opt_text(step->Create_0.traits_json) == json::json_serialized(
            m.traits->0,
        ),
{
}

proof fn lemma_highest(methods: Seq<AuthMethod>)
    ensures
        forall|i: int| 0 <= i < methods.len() ==> (#[trigger] methods[i]).rung() <= authn::highest(
            methods,
        ),
    decreases methods.len(),
{
    if methods.len() > 0 {
        lemma_highest(methods.drop_last());
        assert forall|i: int| 0 <= i < methods.len() implies (#[trigger] methods[i]).rung()
            <= authn::highest(methods) by {
            if i < methods.len() - 1 {
                assert(methods.drop_last()[i] == methods[i]);
            }
        }
    }
}

/// A second factor adds to what a session has shown: the methods that were used stay, the new one
/// is among them, and the class that is achieved is no lower than before and no lower than that of
/// the new one. No method is there twice that was not before.
pub proof fn law_a_step_up_only_adds(methods: Seq<AuthMethod>, new: AuthMethod)
    ensures
        methods.is_prefix_of(combined(methods, new)),
        combined(methods, new).contains(new),
        authn::highest(combined(methods, new)) >= authn::highest(methods),
        authn::highest(combined(methods, new)) >= new.rung(),
        methods.no_duplicates() ==> combined(methods, new).no_duplicates(),
{
    let all = combined(methods, new);
    lemma_highest(all);
    if methods.contains(new) {
        let k = choose|k: int| 0 <= k < methods.len() && methods[k] == new;
        assert(all[k] == new);
    } else {
        assert(all.last() == new);
        assert(all.drop_last() =~= methods);
    }
}

/// The page says that the sign-in failed, in one sentence whatever failed. It keeps the identifier
/// that was typed, what to return to and the hints, asks for the password anew, and offers no
/// passkey.
pub open spec fn says_that_it_failed(
    page: LoginPage,
    status: u16,
    identifier: Seq<char>,
    t: interaction::ResumeView,
) -> bool {
    &&& page.status == status
    &&& page.identifier@ == identifier
    &&& page.return_to@ == t.return_to
    &&& page.error matches Some(error) && error@ == "Incorrect identifier or password."@
    &&& page.hints@ == t.hints
    &&& page.password_form
    &&& page.passkey is None
}

/// A form that returns somewhere and was sent from no other site is read: the account is looked up
/// under the identifier as it was typed but for the white space around it, then the attempt is
/// counted for that identifier, that account and the client of the request, and one too many is
/// told so. Where the lookup failed, something went wrong.
pub proof fn law_an_attempt_is_looked_up_and_counted(
    a: LoginAttempt,
    t: interaction::ResumeView,
    identifier: Seq<char>,
    password: Seq<char>,
    step: LoginStep,
)
    requires
        login_follows(a, step),
        interaction::resume_of(text::opt_text(a.form.return_to)) == Some(t),
        a.scope is Some,
        interaction::same_origin(a.headers@, text::opt_text(a.self_origin)),
        identifier == (match a.form.identifier {
            Some(raw) => text::trim(raw@),
            None => Seq::empty(),
        }),
        password == (match a.form.password {
            Some(raw) => raw@,
            None => Seq::empty(),
        }),
    ensures
        a.lookup is None ==> (step matches LoginStep::LookUp(i) && i@ == identifier),
        a.lookup is Some && a.throttled is None ==> (step matches LoginStep::Regulate {
            identifier: i,
            account,
            client_id,
        } && i@ == identifier && client_id@ == t.client_id && (match a.lookup {
            Some(Ok(Some(user))) => account matches Some(id) && id@ == user.id@,
            _ => account is None,
        })),
        a.lookup is Some && a.throttled == Some(true) ==> (step matches LoginStep::Throttled(p)
            && says_that_it_failed(p, 429, identifier, t)),
        a.lookup matches Some(Err(_)) ==> (a.throttled == Some(false) ==> (step matches LoginStep::Notice(
            n,
        ) && n.status == 500)),
{
}

/// A form that names nothing to return to, and one whose client has no scope, is told that the link
/// is no longer valid; one from another site is told that it was blocked.
pub proof fn law_a_form_has_to_return_somewhere(a: LoginAttempt, step: LoginStep)
    requires
        login_follows(a, step),
    ensures
        interaction::resume_of(text::opt_text(a.form.return_to)) is None ==> (step matches LoginStep::Notice(
            n,
        ) && n.status == 400),
        a.scope is None ==> (step matches LoginStep::Notice(n) && n.status == 400),
        a.scope is Some && interaction::resume_of(text::opt_text(a.form.return_to)) is Some
            && !interaction::same_origin(a.headers@, text::opt_text(a.self_origin)) ==> (
        step matches LoginStep::Notice(n) && n.status == 403),
{
}

/// The password of an account is verified first, exactly as it was typed: against the account's own
/// where it has one, and as on an account that is not there where it has none at all. An imported
/// one is tried where there is no other, or where the other did not verify.
pub proof fn law_a_password_is_verified_first(
    a: LoginAttempt,
    t: interaction::ResumeView,
    identifier: Seq<char>,
    password: Seq<char>,
    user: UserRecord,
    step: LoginStep,
)
    requires
        login_follows(a, step),
        interaction::resume_of(text::opt_text(a.form.return_to)) == Some(t),
        a.scope is Some,
        interaction::same_origin(a.headers@, text::opt_text(a.self_origin)),
        identifier == (match a.form.identifier {
            Some(raw) => text::trim(raw@),
            None => Seq::empty(),
        }),
        password == (match a.form.password {
            Some(raw) => raw@,
            None => Seq::empty(),
        }),
        a.lookup == Some(Ok::<Option<UserRecord>, ()>(Some(user))),
        a.throttled == Some(false),
    ensures
        user.has_usable_password_hash && a.native is None ==> (step matches LoginStep::Verify {
            password: p,
            hash,
        } && p@ == password && hash@ == user.password_hash@),
        user.has_usable_password_hash ==> (a.native matches Some(Err(rejection)) ==> (
        step matches LoginStep::Rejected(reply) && reply@ == rejection.response())),
        !user.has_usable_password_hash && user.foreign_password_hash is None && a.absent is None ==> (
        step matches LoginStep::SpendAbsent { password: p } && p@ == password),
        !user.has_usable_password_hash && user.foreign_password_hash is None ==> (
        a.absent matches Some(Err(rejection)) ==> (step matches LoginStep::Rejected(reply) && reply@
            == rejection.response())),
        !user.has_usable_password_hash && a.foreign is None ==> (
        user.foreign_password_hash matches Some(imported) ==> (
        step matches LoginStep::VerifyForeign { password: p, hash } && p@ == password && hash@
            == imported@)),
        user.has_usable_password_hash && user.can_authenticate && a.native == Some(
            Ok::<bool, HashRejection>(false),
        ) && a.foreign is None ==> (user.foreign_password_hash matches Some(imported) ==> (
        step matches LoginStep::VerifyForeign { password: p, hash } && p@ == password && hash@
            == imported@)),
{
}

/// A right password signs in. Once it verified, against the account's own or the imported one, the
/// risk is evaluated for the account, with the word of which one it was; an attempt of too high a
/// risk fails; any other begins a session of the account, proven by a password at the present time;
/// and a session that began sends the browser back with its cookies.
pub proof fn law_a_right_password_signs_in(
    a: LoginAttempt,
    t: interaction::ResumeView,
    identifier: Seq<char>,
    password: Seq<char>,
    user: UserRecord,
    native: bool,
    step: LoginStep,
)
    requires
        login_follows(a, step),
        interaction::resume_of(text::opt_text(a.form.return_to)) == Some(t),
        a.scope is Some,
        interaction::same_origin(a.headers@, text::opt_text(a.self_origin)),
        identifier == (match a.form.identifier {
            Some(raw) => text::trim(raw@),
            None => Seq::empty(),
        }),
        password == (match a.form.password {
            Some(raw) => raw@,
            None => Seq::empty(),
        }),
        a.lookup == Some(Ok::<Option<UserRecord>, ()>(Some(user))),
        a.throttled == Some(false),
        user.can_authenticate,
        native ==> user.has_usable_password_hash && a.native == Some(Ok::<bool, HashRejection>(true)),
        !native ==> user.foreign_password_hash is Some && a.foreign == Some(true) && (
        user.has_usable_password_hash ==> a.native == Some(Ok::<bool, HashRejection>(false))),
    ensures
        a.blocked is None ==> (step matches LoginStep::EvaluateRisk { user: id, native: own } && id@
            == user.id@ && own == native),
        a.blocked == Some(true) ==> (step matches LoginStep::Blocked(p) && says_that_it_failed(
            p,
            200,
            identifier,
            t,
        )),
        a.blocked == Some(false) && a.session is None ==> (step matches LoginStep::Establish {
            subject,
            event,
        } && subject@ == user.id@ && event.methods@.len() == 1 && event.methods@[0]
            == AuthMethod::Password && event.auth_time_unix_micros == a.now_micros),
        a.blocked == Some(false) ==> (a.session matches Some(Ok(cookies)) ==> (
        step matches LoginStep::Resumed(reply) && reply@ == interaction::redirect_with(
            t.return_to,
            cookies.values(),
        ))),
        a.blocked == Some(false) && a.session == Some(
            Err::<SessionCookies, EstablishSessionError>(EstablishSessionError::NotAuthenticatable),
        ) ==> (step matches LoginStep::Failed(p) && says_that_it_failed(p, 200, identifier, t)),
        a.blocked == Some(false) && a.session == Some(
            Err::<SessionCookies, EstablishSessionError>(EstablishSessionError::Store),
        ) ==> (step matches LoginStep::Notice(n) && n.status == 500),
{
}

/// A wrong password fails, and so does a right one of an account that may not sign in.
pub proof fn law_a_wrong_password_fails(
    a: LoginAttempt,
    t: interaction::ResumeView,
    identifier: Seq<char>,
    password: Seq<char>,
    user: UserRecord,
    step: LoginStep,
)
    requires
        login_follows(a, step),
        interaction::resume_of(text::opt_text(a.form.return_to)) == Some(t),
        a.scope is Some,
        interaction::same_origin(a.headers@, text::opt_text(a.self_origin)),
        identifier == (match a.form.identifier {
            Some(raw) => text::trim(raw@),
            None => Seq::empty(),
        }),
        password == (match a.form.password {
            Some(raw) => raw@,
            None => Seq::empty(),
        }),
        a.lookup == Some(Ok::<Option<UserRecord>, ()>(Some(user))),
        a.throttled == Some(false),
        user.has_usable_password_hash ==> a.native matches Some(Ok(_)),
        !user.has_usable_password_hash && user.foreign_password_hash is None ==> a.absent matches Some(
            Ok(_),
        ),
        !user.can_authenticate || !(user.has_usable_password_hash && a.native == Some(
            Ok::<bool, HashRejection>(true),
        )),
        !user.can_authenticate || user.foreign_password_hash is None || a.foreign == Some(false),
        !user.has_usable_password_hash && user.foreign_password_hash is Some ==> a.foreign is Some,
    ensures
        step matches LoginStep::Failed(p) && says_that_it_failed(p, 200, identifier, t),
{
}

/// An account that is not here is asked for where accounts were kept before, under the identifier
/// and the password that were typed; once it was verified there it is made here, and the browser is
/// sent back with the cookies of its session. Where there is no such place, where it was not
/// verified there, and where it could not be made, a verification is spent and the attempt fails.
pub proof fn law_an_account_from_elsewhere_is_made_here(
    a: LoginAttempt,
    t: interaction::ResumeView,
    identifier: Seq<char>,
    password: Seq<char>,
    step: LoginStep,
)
    requires
        login_follows(a, step),
        interaction::resume_of(text::opt_text(a.form.return_to)) == Some(t),
        a.scope is Some,
        interaction::same_origin(a.headers@, text::opt_text(a.self_origin)),
        identifier == (match a.form.identifier {
            Some(raw) => text::trim(raw@),
            None => Seq::empty(),
        }),
        password == (match a.form.password {
            Some(raw) => raw@,
            None => Seq::empty(),
        }),
        a.lookup == Some(Ok::<Option<UserRecord>, ()>(None)),
        a.throttled == Some(false),
    ensures
        a.has_hook && a.hook is None ==> (step matches LoginStep::AskHook { identifier: i, password: p }
            && i@ == identifier && p@ == password),
        a.has_hook && a.hook == Some(true) && a.migration is None ==> (step matches LoginStep::Migrate {
            identifier: i,
            password: p,
        } && i@ == identifier && p@ == password),
        a.has_hook && a.hook == Some(true) ==> (a.migration matches Some(
            MigrationOutcome::Begun(cookies),
        ) ==> (step matches LoginStep::Resumed(reply) && reply@ == interaction::redirect_with(
            t.return_to,
            cookies.values(),
        ))),
        a.has_hook && a.hook == Some(true) && (a.migration matches Some(MigrationOutcome::Fenced)) ==> (
        step matches LoginStep::Failed(p) && says_that_it_failed(p, 200, identifier, t)),
        a.has_hook && a.hook == Some(true) && (a.migration matches Some(MigrationOutcome::Fault)) ==> (
        step matches LoginStep::Notice(n) && n.status == 500),
        !a.has_hook || a.hook == Some(false) || (a.hook == Some(true) && a.migration matches Some(
            MigrationOutcome::Refused,
        )) ==> {
            &&& a.absent is None ==> (step matches LoginStep::SpendAbsent { password: p } && p@
                == password)
            &&& a.absent matches Some(Err(rejection)) ==> (step matches LoginStep::Rejected(reply)
                && reply@ == rejection.response())
            &&& a.absent matches Some(Ok(_)) ==> (step matches LoginStep::Failed(p)
                && says_that_it_failed(p, 200, identifier, t))
        },
{
}

/// The failures before an attempt stay where neither a session began nor an account was made.
pub proof fn law_failures_are_kept_without_a_sign_in(a: LoginAttempt)
    ensures
        !(a.session matches Some(Ok(_))) && a.migration is None ==> !relaxes(a),
        !(a.session matches Some(Ok(_))) && a.migration == Some(MigrationOutcome::Refused)
            ==> !relaxes(a),
        a.session matches Some(Ok(_)) ==> relaxes(a),
        a.migration matches Some(MigrationOutcome::Begun(_)) ==> relaxes(a),
        a.migration matches Some(MigrationOutcome::Fenced) ==> relaxes(a),
        a.migration matches Some(MigrationOutcome::Fault) ==> relaxes(a),
{
}

/// A migration takes its steps in order. The account is made under its identifier and with the hash
/// of its password; without traits, and without a schema for them, it has none; and with a schema
/// that has nothing against them it has the text of the traits and the version of the schema. A
/// session of the account that was made begins with a password at the present time. What failed, and
/// traits that the schema does not accept, refuse the whole.
pub proof fn law_a_migration_goes_its_way(m: Migration, step: MigrationStep)
    requires
        migration_follows(m, step),
    ensures
        m.hash is None ==> step is Hash,
        m.hash matches Some(Err(_)) ==> step is Refused,
        m.hash matches Some(Ok(_)) ==> (m.traits is Some && m.schema is None ==> step is LoadSchema),
        m.hash matches Some(Ok(_)) ==> (m.traits is Some && (m.schema matches Some(Err(_)))
            ==> step is Refused),
        m.hash matches Some(Ok(_)) ==> (m.traits is Some ==> (m.schema matches Some(
            Ok(Some(verdict)),
        ) ==> (!verdict.compiled || !verdict.valid ==> step is Refused))),
        m.hash matches Some(Ok(hash)) ==> (m.created is None && (m.traits is None || m.schema matches Some(
            Ok(None),
        )) ==> (step matches MigrationStep::Create(user) && user.identifier@ == m.identifier@
            && user.password_hash@ == hash@ && user.traits_json is None
            && user.traits_schema_version is None)),
        m.hash matches Some(Ok(hash)) ==> (m.created is None ==> (m.traits matches Some(traits) ==> (
        m.schema matches Some(Ok(Some(verdict))) ==> (verdict.compiled && verdict.valid ==> (
        step matches MigrationStep::Create(user) && user.identifier@ == m.identifier@
            && user.password_hash@ == hash@ && text::opt_text(user.traits_json)
            == json::json_serialized(traits) && user.traits_schema_version == Some(
            verdict.version,
        )))))),
{
}

/// Once the traits of a migrated account are settled and it was made, a session of it begins, proven
/// by a password at the present time, and the migration ends as the session did.
pub proof fn law_a_migrated_account_signs_in(m: Migration, step: MigrationStep)
    requires
        migration_follows(m, step),
        m.hash matches Some(Ok(_)),
        m.traits is None || m.schema matches Some(Ok(None)) || (m.schema matches Some(Ok(Some(verdict)))
            && verdict.compiled && verdict.valid),
    ensures
        m.created matches Some(Err(_)) ==> step is Refused,
        m.created matches Some(Ok(id)) ==> (m.session is None ==> (step matches MigrationStep::Establish {
            subject,
            event,
        } && subject@ == id@ && event.methods@.len() == 1 && event.methods@[0] == AuthMethod::Password
            && event.auth_time_unix_micros == m.now_micros)),
        m.created matches Some(Ok(_)) ==> (m.session matches Some(Ok(_)) ==> step is Begun),
        m.created matches Some(Ok(_)) ==> (m.session matches Some(
            Err(EstablishSessionError::NotAuthenticatable),
        ) ==> step is Fenced),
        m.created matches Some(Ok(_)) ==> (m.session matches Some(Err(EstablishSessionError::Store))
            ==> step is Fault),
{
}

/// The page asks for a second factor: it keeps what to return to and the hints, offers no
/// enrolment, and offers to remember the device or not, as it is told.
pub open spec fn asks_again(
    page: ChallengePage,
    status: u16,
    t: interaction::ResumeView,
    error: Seq<char>,
    remember: bool,
) -> bool {
    &&& page.status == status
    &&& page.return_to@ == t.return_to
    &&& page.error matches Some(e) && e@ == error
    &&& page.enroll_url is None
    &&& page.remember == remember
    &&& page.hints@ == t.hints
}

/// The form with a second factor takes its steps in order: without a session the user signs in
/// first; a session of another scope is a fault; an empty code is asked for once more; the attempt
/// is counted for the subject of the session, and one too many is told so; then the code is
/// verified for that subject, as it was typed but for the white space around it, and one that does
/// not verify is asked for once more.
pub proof fn law_a_second_factor_is_verified_for_the_session(
    c: Challenge,
    t: interaction::ResumeView,
    code: Seq<char>,
    step: ChallengeStep,
)
    requires
        challenge_follows(c, step),
        interaction::resume_of(text::opt_text(c.form.return_to)) == Some(t),
        c.scope is Some,
        interaction::same_origin(c.headers@, text::opt_text(c.self_origin)),
        code == (match c.form.code {
            Some(raw) => text::trim(raw@),
            None => Seq::empty(),
        }),
    ensures
        c.session is None ==> step is FindSession,
        c.session matches Some(None) ==> (step matches ChallengeStep::Redirect(reply) && reply@
            == interaction::redirect_to(interaction::page_url("/login"@, t.return_to))),
        c.session matches Some(Some(_)) ==> (!c.subject_in_scope ==> (step matches ChallengeStep::Notice(
            n,
        ) && n.status == 500)),
        c.session matches Some(Some(_)) ==> (c.subject_in_scope && code.len() == 0 ==> (
        step matches ChallengeStep::Page(p) && asks_again(
            p,
            200,
            t,
            "Enter a code to continue."@,
            c.devices.enabled && c.devices.user_opt_in,
        ))),
        c.session matches Some(Some(session)) ==> (c.subject_in_scope && code.len() > 0
            && c.throttled is None ==> (step matches ChallengeStep::Regulate(subject) && subject@
            == session.subject@)),
        c.session matches Some(Some(_)) ==> (c.subject_in_scope && code.len() > 0 && c.throttled
            == Some(true) ==> (step matches ChallengeStep::Page(p) && asks_again(
            p,
            429,
            t,
            "Too many attempts. Wait a moment and try again."@,
            false,
        ))),
        c.session matches Some(Some(session)) ==> (c.subject_in_scope && code.len() > 0 && c.throttled
            == Some(false) && c.outcome is None ==> (step matches ChallengeStep::Verify {
            subject,
            code: sent,
        } && subject@ == session.subject@ && sent@ == code)),
        c.session matches Some(Some(_)) ==> (c.subject_in_scope && code.len() > 0 && c.throttled
            == Some(false) && c.outcome == Some(SecondFactorOutcome::Invalid) ==> (
        step matches ChallengeStep::Page(p) && asks_again(
            p,
            200,
            t,
            "Incorrect or expired code."@,
            c.devices.enabled && c.devices.user_opt_in,
        ))),
        c.session matches Some(Some(_)) ==> (c.subject_in_scope && code.len() > 0 && c.throttled
            == Some(false) && (c.outcome == Some(SecondFactorOutcome::Unavailable) || c.outcome
            == Some(SecondFactorOutcome::Error)) ==> (step matches ChallengeStep::Notice(n)
            && n.status == 500)),
{
}

/// A right code steps the session up: a session of the same subject begins at the present time,
/// which has every method of the present one and that of the code, a one-time or a recovery one.
/// Once it began the browser is sent back with its cookies, and the device is remembered where
/// that is on and the user chose it or has no choice.
pub proof fn law_a_right_code_steps_up(
    c: Challenge,
    t: interaction::ResumeView,
    code: Seq<char>,
    session: AuthenticatedSession,
    step: ChallengeStep,
)
    requires
        challenge_follows(c, step),
        interaction::resume_of(text::opt_text(c.form.return_to)) == Some(t),
        c.scope is Some,
        interaction::same_origin(c.headers@, text::opt_text(c.self_origin)),
        c.form.code matches Some(raw) && text::trim(raw@).len() > 0,
        c.session == Some(Some(session)),
        c.subject_in_scope,
        c.throttled == Some(false),
        c.outcome == Some(SecondFactorOutcome::Totp) || c.outcome == Some(
            SecondFactorOutcome::Recovery,
        ),
    ensures
        c.established is None ==> (step matches ChallengeStep::Establish { subject, event } && subject@
            == session.subject@ && event.auth_time_unix_micros == c.now_micros && (c.outcome == Some(
            SecondFactorOutcome::Totp,
        ) ==> event.methods@.contains(AuthMethod::Totp)) && (c.outcome == Some(
            SecondFactorOutcome::Recovery,
        ) ==> event.methods@.contains(AuthMethod::RecoveryCode)) && authn::methods_of(
            text::words(session.auth_methods@),
        ).is_prefix_of(event.methods@) && event.methods@.len() <= authn::methods_of(
            text::words(session.auth_methods@),
        ).len() + 1),
        c.established matches Some(Ok(cookies)) ==> (step matches ChallengeStep::Resumed {
            reply,
            remember,
        } && reply@ == interaction::redirect_with(t.return_to, cookies.values()) && (remember <==> (
        c.devices.enabled && (!c.devices.user_opt_in || (c.form.remember_device matches Some(chosen)
            && (chosen@ == "1"@ || chosen@ == "on"@ || chosen@ == "true"@)))))),
        c.established matches Some(Err(EstablishSessionError::NotAuthenticatable)) ==> (
        step matches ChallengeStep::Page(p) && asks_again(
            p,
            200,
            t,
            "Incorrect or expired code."@,
            c.devices.enabled && c.devices.user_opt_in,
        )),
        c.established matches Some(Err(EstablishSessionError::Store)) ==> (
        step matches ChallengeStep::Notice(n) && n.status == 500),
{
    law_a_step_up_only_adds(
        authn::methods_of(text::words(session.auth_methods@)),
        if c.outcome == Some(SecondFactorOutcome::Totp) {
            AuthMethod::Totp
        } else {
            AuthMethod::RecoveryCode
        },
    );
}

/// A scope is served under its tenant first and its environment second, and a second factor is
/// enrolled under the scope of the request.
pub proof fn law_a_scope_is_served_under_its_names(scope: Scope)
    ensures
        scope_path(scope.tenant@, scope.environment@) == "/t/"@ + scope.tenant@ + "/e/"@
            + scope.environment@,
        enroll_path(scope) == "/t/"@ + scope.tenant@ + "/e/"@ + scope.environment@
            + "/account/mfa/totp/enroll"@,
{
}

/// A notice says what happened: that the link is no longer valid, that the form was blocked, or that
/// something went wrong. The form of a login and that of a second factor say it alike.
pub proof fn law_a_notice_says_what_happened(
    a: LoginAttempt,
    step: LoginStep,
    c: Challenge,
    next: ChallengeStep,
)
    requires
        login_follows(a, step),
        challenge_follows(c, next),
    ensures
        step matches LoginStep::Notice(n) ==> (n.status == 400 && n.title@ == "Link no longer valid"@)
            || (n.status == 403 && n.title@ == "Request blocked"@) || (n.status == 500 && n.title@
            == "Something went wrong"@),
        next matches ChallengeStep::Notice(n) ==> (n.status == 400 && n.title@
            == "Link no longer valid"@) || (n.status == 403 && n.title@ == "Request blocked"@) || (
        n.status == 500 && n.title@ == "Something went wrong"@),
        c.scope is None ==> (next matches ChallengeStep::Notice(n) && n.status == 400),
        interaction::resume_of(text::opt_text(c.form.return_to)) is None ==> (
        next matches ChallengeStep::Notice(n) && n.status == 400),
        c.scope is Some && interaction::resume_of(text::opt_text(c.form.return_to)) is Some
            && !interaction::same_origin(c.headers@, text::opt_text(c.self_origin)) ==> (
        next matches ChallengeStep::Notice(n) && n.status == 403),
{
}

} // verus!
