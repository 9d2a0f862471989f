//! How a flow is reached: by a browser with forms, or by a program with JSON.
//!
//! Both drive one engine. They differ in how a submission comes in (a form of our own site, or a
//! JSON body with a token) and in how the flow goes on (a redirect with the cookies of the session,
//! or a JSON body). While flows are off, none of this is there.

use vstd::prelude::*;

use crate::flow::wire_identity::Journey;
use crate::headers::Headers;
use crate::hints;
use crate::hints::InteractionHints;
use crate::interaction;
use crate::interaction::Notice;
use crate::interaction::SessionCookies;
use crate::json;
use crate::login;
use crate::login::PasskeyOffer;
use crate::login::PasskeyUi;
use crate::reply;
use crate::reply::Reply;
use crate::scope_map::Scope;
use crate::text;
use crate::util;

verus! {

/// Where the stylesheet of the pages is.
pub const FLOW_STYLESHEET_PATH: &'static str = "/t/{tenant_id}/e/{environment_id}/pages.css";

/// Where the images of a brand are.
pub const FLOW_BRAND_ASSET_PATH: &'static str = "/t/{tenant_id}/e/{environment_id}/brand/{slug}/{kind}";

/// Where a browser begins and goes on with a flow.
pub const FLOW_BROWSER_PATH: &'static str = "/t/{tenant_id}/e/{environment_id}/flow/{journey}";

/// Where a program begins a flow.
pub const FLOW_CREATE_API_PATH: &'static str = "/t/{tenant_id}/e/{environment_id}/flow/api/{journey}";

/// Where a program goes on with a flow.
pub const FLOW_API_SUBMIT_PATH: &'static str = "/t/{tenant_id}/e/{environment_id}/flow/api/{journey}/submit";

/// The body with which a program begins a flow.
pub struct ApiCreateBody {
    pub return_to: Option<String>,
    pub transient_payload: Option<serde_json::Value>,
    pub connector: Option<String>,
}

/// The query with which a browser begins a flow.
#[derive(Debug)]
pub struct BrowserCreateQuery {
    pub return_to: Option<String>,
    pub connector: Option<String>,
}

/// The form with which a browser goes on with a flow.
#[derive(Debug)]
pub struct BrowserSubmitForm {
    pub flow: String,
    pub identifier: Option<String>,
    pub password: Option<String>,
    pub code: Option<String>,
    pub pow_challenge_id: Option<String>,
    pub pow_nonce: Option<String>,
    pub pow_context: Option<String>,
    pub pow_token: Option<String>,
    pub transient_payload: Option<String>,
}

/// The query of the stylesheet.
#[derive(Debug)]
pub struct StylesheetQuery {
    /// The brand.
    pub b: Option<String>,
}

// ---------------------------------------------------------------------------
// Beginning
// ---------------------------------------------------------------------------

impl Journey {
    /// How the journey is written.
    pub open spec fn name(self) -> Seq<char> {
        match self {
            Journey::Login => "login"@,
            Journey::Registration => "registration"@,
            Journey::Recovery => "recovery"@,
            Journey::Federation => "federation"@,
            Journey::Consent => "consent"@,
            Journey::Mfa => "mfa"@,
            Journey::Custom => "custom"@,
        }
    }
}

/// A flow can begin with this journey.
pub open spec fn begins(journey: Journey) -> bool {
    journey is Login || journey is Registration || journey is Recovery || journey is Federation
}

/// The journey that a flow begins with: the second factor is reached from a login, and neither
/// consent nor a custom journey begins here.
pub fn creation_journey(raw: &str) -> (r: Option<Journey>)
    ensures
        match r {
            Some(journey) => begins(journey) && journey.name() == raw@,
            None => forall|journey: Journey| begins(journey) ==> #[trigger] journey.name() != raw@,
        },
{
    if text::same(raw, "login") {
        Some(Journey::Login)
    } else if text::same(raw, "registration") {
        Some(Journey::Registration)
    } else if text::same(raw, "recovery") {
        Some(Journey::Recovery)
    } else if text::same(raw, "federation") {
        Some(Journey::Federation)
    } else {
        None
    }
}

/// What comes next for a request to begin a flow.
#[derive(Debug, Clone, Copy, PartialEq, Eq, Structural)]
pub enum CreateStep {
    /// Answer that there is nothing here.
    Disabled,
    /// Answer that there is no such flow.
    NoSuchFlow,
    /// Begin a flow with this journey.
    Create(Journey),
}

/// What comes next for a request to begin a flow: there is nothing here while flows are off, and no
/// such flow without a scope or with another journey than one that a flow begins with.
pub open spec fn begun(enabled: bool, in_scope: bool, journey: Seq<char>, step: CreateStep) -> bool {
    match step {
        CreateStep::Disabled => !enabled,
        CreateStep::NoSuchFlow => enabled && (!in_scope || forall|j: Journey|
            begins(j) ==> #[trigger] j.name() != journey),
        CreateStep::Create(j) => enabled && in_scope && begins(j) && j.name() == journey,
    }
}

/// What comes next for a request of a program to begin a flow. `in_scope` says that the path names
/// a scope.
pub fn flow_api_create(enabled: bool, in_scope: bool, journey: &str) -> (r: CreateStep)
    ensures
        begun(enabled, in_scope, journey@, r),
{
    if !enabled {
        return CreateStep::Disabled;
    }
    if !in_scope {
        return CreateStep::NoSuchFlow;
    }
    match creation_journey(journey) {
        Some(j) => CreateStep::Create(j),
        None => CreateStep::NoSuchFlow,
    }
}

/// What comes next for a request of a browser to begin a flow.
pub fn flow_browser_get(enabled: bool, in_scope: bool, journey: &str) -> (r: CreateStep)
    ensures
        begun(enabled, in_scope, journey@, r),
{
    flow_api_create(enabled, in_scope, journey)
}

// ---------------------------------------------------------------------------
// Submissions
// ---------------------------------------------------------------------------

/// A value of a form, where it is there.
pub open spec fn value_of(name: Seq<char>, value: Option<Seq<char>>) -> Seq<(Seq<char>, Seq<char>)> {
    match value {
        Some(v) => seq![(name, v)],
        None => Seq::empty(),
    }
}

/// The values of a form that its flow reads. The flow itself and what is carried along are not
/// among them.
pub open spec fn values_of(form: BrowserSubmitForm) -> Seq<(Seq<char>, Seq<char>)> {
    value_of("identifier"@, text::opt_text(form.identifier)) + value_of(
        "password"@,
        text::opt_text(form.password),
    ) + value_of("code"@, text::opt_text(form.code)) + value_of(
        "pow_challenge_id"@,
        text::opt_text(form.pow_challenge_id),
    ) + value_of("pow_nonce"@, text::opt_text(form.pow_nonce)) + value_of(
        "pow_context"@,
        text::opt_text(form.pow_context),
    ) + value_of("pow_token"@, text::opt_text(form.pow_token))
}

/// Adds a value, where it is there.
fn add_value(values: &mut Vec<(String, String)>, name: &str, value: &Option<String>)
    ensures
        reply::pairs(final(values)@) == reply::pairs(old(values)@) + value_of(
            name@,
            text::opt_text(*value),
        ),
{
    match value {
        Some(v) => reply::add_header(values, name, v.as_str()),
        None => {},
    }
    assert(reply::pairs(values@) =~= reply::pairs(old(values)@) + value_of(
        name@,
        text::opt_text(*value),
    ));
}

/// The values of a form that its flow reads.
pub fn node_values(form: &BrowserSubmitForm) -> (r: Vec<(String, String)>)
    ensures
        reply::pairs(r@) == values_of(*form),
{
    let mut values: Vec<(String, String)> = Vec::new();
    assert(reply::pairs(values@) =~= Seq::empty());
    add_value(&mut values, "identifier", &form.identifier);
    add_value(&mut values, "password", &form.password);
    add_value(&mut values, "code", &form.code);
    add_value(&mut values, "pow_challenge_id", &form.pow_challenge_id);
    add_value(&mut values, "pow_nonce", &form.pow_nonce);
    add_value(&mut values, "pow_context", &form.pow_context);
    add_value(&mut values, "pow_token", &form.pow_token);
    assert(reply::pairs(values@) =~= values_of(*form));
    values
}

/// What an engine says of an error: a status, and a message that a client knows by its number.
#[derive(Debug, PartialEq, Eq)]
pub struct FlowFault {
    pub status: u16,
    pub message: Option<(i64, String)>,
}

/// How a flow goes on.
#[derive(Debug, PartialEq, Eq)]
pub enum Continuation {
    /// With this flow, as it is written, and the token of the next submission.
    Render { flow: serde_json::Value, submit_token: String },
    /// Not at all: it is complete.
    Complete { session: SessionCookies, return_to: Option<String> },
    /// Elsewhere.
    Redirect { url: String },
}

/// What is known of a submission. What is absent was not done yet.
pub struct FlowSubmission {
    pub enabled: bool,
    /// The path names a scope.
    pub in_scope: bool,
    /// What was submitted can be read; an `Err` says what is wrong with it.
    pub parsed: Result<(), FlowFault>,
    /// The flow is one of this scope.
    pub flow_in_scope: bool,
    /// How the flow goes on.
    pub driven: Option<Result<Continuation, FlowFault>>,
    /// What is said of a flow that is not there.
    pub no_such_flow: FlowFault,
    /// The name of the header with the version of the contract.
    pub contract_header: String,
}

/// What comes next for a submission of a program.
#[derive(Debug, PartialEq, Eq)]
pub enum ApiStep {
    /// Answer that there is nothing here.
    Disabled,
    /// Drive the flow.
    Drive,
    /// Answer with this.
    Answer(Reply),
}

/// An answer in JSON.
pub open spec fn in_json(status: u16, members: Seq<(Seq<char>, json::FieldView)>) -> reply::ReplyView {
    reply::ReplyView {
        status,
        headers: seq![("content-type"@, "application/json"@)],
        body: json::json_object_text(members),
    }
}

/// An answer in JSON.
fn json_reply(status: u16, members: &Vec<(String, json::Field)>) -> (r: Reply)
    ensures
        r@ == in_json(status, json::members_view(members@)),
{
    let r = Reply {
        status,
        headers: reply::content_type("application/json"),
        body: json::object_text(members),
    };
    assert(r@.headers =~= seq![("content-type"@, "application/json"@)]);
    r
}

/// The version of the contract that every answer of a flow carries.
pub const FLOW_CONTRACT_VERSION: &'static str = "1";

/// An answer with the version of the contract, in the header of this name.
pub open spec fn under_contract(response: reply::ReplyView, name: Seq<char>) -> reply::ReplyView {
    reply::ReplyView {
        headers: response.headers.push((name, FLOW_CONTRACT_VERSION@)),
        ..response
    }
}

/// An answer with the version of the contract, in the header of this name.
pub fn with_contract_header(response: Reply, name: &str) -> (r: Reply)
    ensures
        r@ == under_contract(response@, name@),
{
    let mut response = response;
    reply::add_header(&mut response.headers, name, FLOW_CONTRACT_VERSION);
    response
}

/// What is said of an error: the number and the text of the message, or that the server failed.
pub open spec fn error_details(fault: FlowFault) -> Seq<(Seq<char>, json::FieldView)> {
    match fault.message {
        Some((id, text)) => seq![
            ("id"@, json::FieldView::Int(id as int)),
            ("text"@, json::FieldView::Text(text@)),
        ],
        None => seq![("text"@, json::FieldView::Text("server_error"@))],
    }
}

/// What is said of an error, as it is written.
pub fn error_fields(fault: &FlowFault) -> (r: Vec<(String, json::Field)>)
    ensures
        json::members_view(r@) == error_details(*fault),
{
    let mut v: Vec<(String, json::Field)> = Vec::new();
    match &fault.message {
        Some((id, text)) => {
            json::put(&mut v, "id", json::Field::Int(*id));
            json::put(&mut v, "text", json::Field::Text(text.clone()));
        },
        None => {
            json::put(&mut v, "text", json::Field::Text("server_error".to_owned()));
        },
    }
    assert(json::members_view(v@) =~= error_details(*fault));
    v
}

/// What a program is told of an error.
pub open spec fn error_members(fault: FlowFault) -> Seq<(Seq<char>, json::FieldView)> {
    seq![("error"@, json::FieldView::Value(json::json_object(error_details(fault))))]
}

/// The answer to a program with an error.
pub open spec fn faulted(fault: FlowFault, contract_header: Seq<char>) -> reply::ReplyView {
    under_contract(in_json(fault.status, error_members(fault)), contract_header)
}

/// The answer to a program with an error.
pub fn error_json(fault: &FlowFault, contract_header: &str) -> (r: Reply)
    ensures
        r@ == faulted(*fault, contract_header@),
{
    let details = error_fields(fault);
    let mut v: Vec<(String, json::Field)> = Vec::new();
    json::put(&mut v, "error", json::Field::Value(json::object(&details)));
    assert(json::members_view(v@) =~= error_members(*fault));
    with_contract_header(json_reply(fault.status, &v), contract_header)
}

/// Where a program is to go on; nowhere in particular where that is left open.
pub open spec fn onward_details(to: Option<Seq<char>>) -> Seq<(Seq<char>, json::FieldView)> {
    seq![
        (
            "redirect_to"@,
            match to {
                Some(url) => json::FieldView::Text(url),
                None => json::FieldView::Null,
            },
        ),
    ]
}

/// Where a program is to go on, as it is written.
pub fn onward_fields(to: &Option<String>) -> (r: Vec<(String, json::Field)>)
    ensures
        json::members_view(r@) == onward_details(text::opt_text(*to)),
{
    let mut v: Vec<(String, json::Field)> = Vec::new();
    let field: json::Field = match to {
        Some(url) => json::Field::Text(url.clone()),
        None => json::Field::Null,
    };
    json::put(&mut v, "redirect_to", field);
    assert(json::members_view(v@) =~= onward_details(text::opt_text(*to)));
    v
}

/// What a program is told where the flow is in this state, and goes on there.
pub open spec fn onward_members(state: Seq<char>, to: Option<Seq<char>>) -> Seq<
    (Seq<char>, json::FieldView),
> {
    seq![
        ("state"@, json::FieldView::Text(state)),
        ("continue_with"@, json::FieldView::Value(json::json_object(onward_details(to)))),
    ]
}

/// What a program is told where the flow is in this state, and goes on there.
fn onward(state: &str, to: &Option<String>, contract_header: &str) -> (r: Reply)
    ensures
        r@ == under_contract(
            in_json(200, onward_members(state@, text::opt_text(*to))),
            contract_header@,
        ),
{
    let details = onward_fields(to);
    let mut v: Vec<(String, json::Field)> = Vec::new();
    json::put(&mut v, "state", json::Field::Text(state.to_owned()));
    json::put(&mut v, "continue_with", json::Field::Value(json::object(&details)));
    assert(json::members_view(v@) =~= onward_members(state@, text::opt_text(*to)));
    with_contract_header(json_reply(200, &v), contract_header)
}

/// What a program is told of a flow that goes on: the flow, and the token of the next submission.
pub open spec fn envelope_members(flow: serde_json::Value, submit_token: Seq<char>) -> Seq<
    (Seq<char>, json::FieldView),
> {
    seq![
        ("flow"@, json::FieldView::Value(flow)),
        ("submit_token"@, json::FieldView::Text(submit_token)),
    ]
}

/// What a program is told of a flow that goes on, as it is written.
pub fn envelope_fields(flow: serde_json::Value, submit_token: String) -> (r: Vec<
    (String, json::Field),
>)
    ensures
        json::members_view(r@) == envelope_members(flow, submit_token@),
{
    let mut v: Vec<(String, json::Field)> = Vec::new();
    json::put(&mut v, "flow", json::Field::Value(flow));
    json::put(&mut v, "submit_token", json::Field::Text(submit_token));
    assert(json::members_view(v@) =~= envelope_members(flow, submit_token@));
    v
}

/// What a program is told of a flow that goes on.
pub fn api_flow_envelope(
    status: u16,
    flow: serde_json::Value,
    submit_token: String,
    contract_header: &str,
) -> (r: Reply)
    ensures
        r@ == under_contract(
            in_json(status, envelope_members(flow, submit_token@)),
            contract_header@,
        ),
{
    let v = envelope_fields(flow, submit_token);
    with_contract_header(json_reply(status, &v), contract_header)
}

/// What a program is told of how its flow goes on, with the version of the contract. Where it is
/// complete, the answer sets the cookies of the session.
pub open spec fn api_answer(
    driven: Result<Continuation, FlowFault>,
    contract_header: Seq<char>,
) -> reply::ReplyView {
    match driven {
        Ok(Continuation::Render { flow, submit_token }) => under_contract(
            in_json(200, envelope_members(flow, submit_token@)),
            contract_header,
        ),
        Ok(Continuation::Complete { session, return_to }) => {
            let plain = under_contract(
                in_json(200, onward_members("completed"@, text::opt_text(return_to))),
                contract_header,
            );
            reply::ReplyView {
                headers: plain.headers + interaction::set_cookies(session.values()),
                ..plain
            }
        },
        Ok(Continuation::Redirect { url }) => under_contract(
            in_json(200, onward_members("redirect"@, Some(url@))),
            contract_header,
        ),
        Err(fault) => faulted(fault, contract_header),
    }
}

/// What comes next for a submission of a program. Every answer but that there is nothing here
/// carries the version of the contract.
pub fn flow_api_submit(q: FlowSubmission) -> (r: ApiStep)
    ensures
        if !q.enabled {
            r is Disabled
        } else if !q.in_scope {
            r matches ApiStep::Answer(a) && a@ == faulted(q.no_such_flow, q.contract_header@)
        } else {
            match q.parsed {
                Err(fault) => r matches ApiStep::Answer(a) && a@ == faulted(
                    fault,
                    q.contract_header@,
                ),
                Ok(_) => if !q.flow_in_scope {
                    r matches ApiStep::Answer(a) && a@ == faulted(
                        q.no_such_flow,
                        q.contract_header@,
                    )
                } else {
                    match q.driven {
                        None => r is Drive,
                        Some(driven) => r matches ApiStep::Answer(a) && a@ == api_answer(
                            driven,
                            q.contract_header@,
                        ),
                    }
                },
            }
        },
{
    if !q.enabled {
        return ApiStep::Disabled;
    }
    let contract: &str = q.contract_header.as_str();
    if !q.in_scope {
        return ApiStep::Answer(error_json(&q.no_such_flow, contract));
    }
    match &q.parsed {
        Err(fault) => return ApiStep::Answer(error_json(fault, contract)),
        Ok(_) => {},
    }
    if !q.flow_in_scope {
        return ApiStep::Answer(error_json(&q.no_such_flow, contract));
    }
    match q.driven {
        None => ApiStep::Drive,
        Some(Ok(Continuation::Render { flow, submit_token })) => ApiStep::Answer(
            api_flow_envelope(200, flow, submit_token, contract),
        ),
        Some(Ok(Continuation::Complete { session, return_to })) => {
            let plain = onward("completed", &return_to, contract);
            ApiStep::Answer(interaction::attach_session_cookies(plain, &session))
        },
        Some(Ok(Continuation::Redirect { url })) => ApiStep::Answer(
            onward("redirect", &Some(url), contract),
        ),
        Some(Err(fault)) => ApiStep::Answer(error_json(&fault, contract)),
    }
}

/// A page that a browser is shown.
#[derive(Debug, PartialEq, Eq)]
pub enum BrowserPage {
    /// This notice.
    Refuse(Notice),
    /// A notice that says this, with this status.
    Tell { status: u16, text: String },
    /// This flow.
    Show(serde_json::Value),
    /// That the sign-in succeeded; the answer sets these cookies.
    SignedIn(Vec<String>),
}

/// What comes next for a submission of a browser.
#[derive(Debug, PartialEq, Eq)]
pub enum BrowserStep {
    /// Answer that there is nothing here.
    Disabled,
    /// Drive the flow.
    Drive,
    /// Answer with this page, with the version of the contract in a header: its name, and its
    /// value.
    Page { page: BrowserPage, contract: (String, String) },
    /// Answer with this redirect.
    Redirect(Reply),
}

/// A header with the version of the contract.
pub open spec fn versions(contract: (String, String), contract_header: Seq<char>) -> bool {
    contract.0@ == contract_header && contract.1@ == FLOW_CONTRACT_VERSION@
}

/// A page, with the version of the contract.
fn page_under_contract(page: BrowserPage, contract_header: &str) -> (r: BrowserStep)
    ensures
        r matches BrowserStep::Page { page: p, contract } && p == page && versions(
            contract,
            contract_header@,
        ),
{
    BrowserStep::Page {
        page,
        contract: (contract_header.to_owned(), FLOW_CONTRACT_VERSION.to_owned()),
    }
}

/// The page says this of an error: the text of the message, or that something failed.
pub open spec fn says_of(page: BrowserPage, fault: FlowFault) -> bool {
    page matches BrowserPage::Tell { status, text } && status == fault.status && text@ == (
    match fault.message {
        Some((_, message)) => message@,
        None => "The request could not be processed."@,
    })
}

/// What a browser is told of an error, with the version of the contract.
pub open spec fn tells(step: BrowserStep, fault: FlowFault, contract_header: Seq<char>) -> bool {
    step matches BrowserStep::Page { page, contract } && says_of(page, fault) && versions(
        contract,
        contract_header,
    )
}

/// What a browser is told of an error.
pub fn error_html(fault: &FlowFault, contract_header: &str) -> (r: BrowserStep)
    ensures
        tells(r, *fault, contract_header@),
{
    let text: String = match &fault.message {
        Some((_, message)) => message.clone(),
        None => "The request could not be processed.".to_owned(),
    };
    page_under_contract(BrowserPage::Tell { status: fault.status, text }, contract_header)
}

/// The page says that the sign-in succeeded, and the answer sets these cookies.
pub open spec fn signs_in(page: BrowserPage, cookies: Seq<Seq<char>>) -> bool {
    page matches BrowserPage::SignedIn(set) && text::texts(set@) == cookies
}

/// The page is a notice that the form is one of another site.
pub open spec fn refuses(page: BrowserPage) -> bool {
    page matches BrowserPage::Refuse(n) && interaction::says(
        n,
        403,
        "Request blocked"@,
        "This request could not be verified. Start the sign-in from the application again."@,
    )
}

/// How the flow of a browser goes on, with the version of the contract. Where it is complete, the
/// browser goes back to where it came from, or is told so.
pub open spec fn browser_answer(
    driven: Result<Continuation, FlowFault>,
    contract_header: Seq<char>,
    step: BrowserStep,
) -> bool {
    match driven {
        Ok(Continuation::Render { flow, submit_token }) => step matches BrowserStep::Page {
            page,
            contract,
        } && page == BrowserPage::Show(flow) && versions(contract, contract_header),
        Ok(Continuation::Complete { session, return_to }) => match return_to {
            Some(target) => step matches BrowserStep::Redirect(a) && a@ == under_contract(
                interaction::redirect_with(target@, session.values()),
                contract_header,
            ),
            None => step matches BrowserStep::Page { page, contract } && signs_in(
                page,
                session.values(),
            ) && versions(contract, contract_header),
        },
        Ok(Continuation::Redirect { url }) => step matches BrowserStep::Redirect(a) && a@
            == under_contract(interaction::redirect_to(url@), contract_header),
        Err(fault) => tells(step, fault, contract_header),
    }
}

/// What comes next for a submission of a browser. A form of another site is refused before
/// anything is looked at. Every answer but that there is nothing here carries the version of the
/// contract.
pub fn flow_browser_post(q: FlowSubmission, headers: &Headers, self_origin: Option<&str>) -> (r:
    BrowserStep)
    ensures
        if !q.enabled {
            r is Disabled
        } else if !interaction::same_origin(headers@, text::opt_str(self_origin)) {
            r matches BrowserStep::Page { page, contract } && refuses(page) && versions(
                contract,
                q.contract_header@,
            )
        } else if !q.in_scope || !q.flow_in_scope {
            tells(r, q.no_such_flow, q.contract_header@)
        } else {
            match q.parsed {
                Err(fault) => tells(r, fault, q.contract_header@),
                Ok(_) => match q.driven {
                    None => r is Drive,
                    Some(driven) => browser_answer(driven, q.contract_header@, r),
                },
            }
        },
{
    if !q.enabled {
        return BrowserStep::Disabled;
    }
    let contract: &str = q.contract_header.as_str();
    if !interaction::same_origin_ok(headers, self_origin) {
        let page = BrowserPage::Refuse(interaction::forbidden_page());
        return page_under_contract(page, contract);
    }
    if !q.in_scope || !q.flow_in_scope {
        return error_html(&q.no_such_flow, contract);
    }
    match &q.parsed {
        Err(fault) => return error_html(fault, contract),
        Ok(_) => {},
    }
    match q.driven {
        None => BrowserStep::Drive,
        Some(Ok(Continuation::Render { flow, .. })) => page_under_contract(
            BrowserPage::Show(flow),
            contract,
        ),
        Some(Ok(Continuation::Complete { session, return_to })) => match return_to {
            Some(target) => {
                let back = interaction::redirect_setting_cookie(target.as_str(), &session);
                BrowserStep::Redirect(with_contract_header(back, contract))
            },
            None => page_under_contract(BrowserPage::SignedIn(session.header_values()), contract),
        },
        Some(Ok(Continuation::Redirect { url })) => BrowserStep::Redirect(
            with_contract_header(interaction::redirect(url.as_str()), contract),
        ),
        Some(Err(fault)) => error_html(&fault, contract),
    }
}

// ---------------------------------------------------------------------------
// Chrome
// ---------------------------------------------------------------------------

/// What comes next for the stylesheet.
#[derive(Debug, PartialEq, Eq)]
pub enum StylesheetStep {
    /// Answer that there is nothing here.
    Disabled,
    /// Answer with the plain stylesheet.
    Neutral,
    /// Find this brand.
    FindBrand(String),
    /// Answer with the stylesheet of the brand.
    Branded,
}

/// What comes next for the stylesheet: that of the brand that the page was shown with, or else the
/// plain one. `found` says whether there is such a brand.
pub fn flow_stylesheet(enabled: bool, in_scope: bool, query: StylesheetQuery, found: Option<bool>) -> (r:
    StylesheetStep)
    ensures
        if !enabled {
            r is Disabled
        } else {
            match query.b {
                Some(slug) => if !in_scope {
                    r is Neutral
                } else {
                    match found {
                        None => r matches StylesheetStep::FindBrand(s) && s@ == slug@,
                        Some(true) => r is Branded,
                        Some(false) => r is Neutral,
                    }
                },
                None => r is Neutral,
            }
        },
{
    if !enabled {
        return StylesheetStep::Disabled;
    }
    if !in_scope {
        return StylesheetStep::Neutral;
    }
    match query.b {
        None => StylesheetStep::Neutral,
        Some(slug) => match found {
            None => StylesheetStep::FindBrand(slug),
            Some(true) => StylesheetStep::Branded,
            Some(false) => StylesheetStep::Neutral,
        },
    }
}

/// What comes next for an image of a brand.
#[derive(Debug, Clone, Copy, PartialEq, Eq, Structural)]
pub enum AssetStep {
    /// Answer that there is nothing here.
    NotFound,
    /// Find the image.
    Find,
    /// Answer with the image.
    Serve,
}

/// What comes next for an image of a brand. While flows are off, without a scope, for a kind of
/// image that is none, and where there is no such image, the answer is the same.
pub fn flow_brand_asset(enabled: bool, in_scope: bool, kind_known: bool, found: Option<bool>) -> (r:
    AssetStep)
    ensures
        r == (if !enabled || !in_scope || !kind_known {
            AssetStep::NotFound
        } else {
            match found {
                None => AssetStep::Find,
                Some(true) => AssetStep::Serve,
                Some(false) => AssetStep::NotFound,
            }
        }),
{
    if !enabled || !in_scope || !kind_known {
        return AssetStep::NotFound;
    }
    match found {
        None => AssetStep::Find,
        Some(true) => AssetStep::Serve,
        Some(false) => AssetStep::NotFound,
    }
}

/// The kind of an image of a brand.
#[derive(Debug, Clone, Copy, PartialEq, Eq, Structural)]
pub enum BrandAssetKind {
    Logo,
    Favicon,
}

/// The brand of a page: which of the brands it is, its name, and which images it has.
#[derive(Debug, PartialEq, Eq)]
pub struct ResolvedBrand {
    pub index: usize,
    pub slug: String,
    pub has_logo: bool,
    pub has_favicon: bool,
}

/// Whether there is an image of this kind.
fn has_kind(assets: &Vec<BrandAssetKind>, kind: BrandAssetKind) -> (r: bool)
    ensures
        r == assets@.contains(kind),
{
    let mut i: usize = 0;
    while i < assets.len()
        invariant
            i <= assets@.len(),
            forall|k: int| 0 <= k < i ==> assets@[k] != kind,
        decreases assets@.len() - i,
    {
        if assets[i] == kind {
            assert(assets@[i as int] == kind);
            return true;
        }
        i = i + 1;
    }
    false
}

/// The brand of a page: the one of these that was chosen. Without a brand, or without a choice,
/// the page is plain.
pub fn resolve_brand(slugs: &Vec<String>, chosen: Option<usize>, assets: &Vec<BrandAssetKind>) -> (r:
    Option<ResolvedBrand>)
    ensures
        match chosen {
            Some(index) => if index < slugs@.len() {
                r matches Some(b) && b.index == index && b.slug@ == slugs@[index as int]@
                    && b.has_logo == assets@.contains(BrandAssetKind::Logo) && b.has_favicon
                    == assets@.contains(BrandAssetKind::Favicon)
            } else {
                r is None
            },
            None => r is None,
        },
{
    match chosen {
        Some(index) => {
            if index >= slugs.len() {
                return None;
            }
            Some(
                ResolvedBrand {
                    index,
                    slug: slugs[index].clone(),
                    has_logo: has_kind(assets, BrandAssetKind::Logo),
                    has_favicon: has_kind(assets, BrandAssetKind::Favicon),
                },
            )
        },
        None => None,
    }
}

/// A language that is installed: its tag, where it is one, and whether it is the default.
pub struct InstalledLocale {
    pub tag: Option<String>,
    pub is_env_default: bool,
}

/// The default among the installed languages: the last that is marked and has a tag, or else
/// English.
pub open spec fn default_of(installed: Seq<InstalledLocale>) -> Seq<char>
    decreases installed.len(),
{
    if installed.len() == 0 {
        "en"@
    } else {
        match installed.last().tag {
            Some(tag) => if installed.last().is_env_default {
                tag@
            } else {
                default_of(installed.drop_last())
            },
            None => default_of(installed.drop_last()),
        }
    }
}

/// The default among the installed languages.
pub fn env_default_locale(installed: &Vec<InstalledLocale>) -> (r: String)
    ensures
        r@ == default_of(installed@),
{
    let mut found: String = "en".to_owned();
    let mut i: usize = 0;
    while i < installed.len()
        invariant
            i <= installed@.len(),
            found@ == default_of(installed@.take(i as int)),
        decreases installed@.len() - i,
    {
        assert(installed@.take(i + 1).drop_last() =~= installed@.take(i as int));
        match &installed[i].tag {
            Some(tag) => if installed[i].is_env_default {
                found = tag.clone();
            },
            None => {},
        }
        i = i + 1;
    }
    assert(installed@.take(installed@.len() as int) =~= installed@);
    found
}

/// What a page of a flow is shown with.
pub struct PagePlan {
    pub scope_path: String,
    pub hints: InteractionHints,
    /// The client, for the choice of the brand.
    pub client_id: Option<String>,
    /// What the passkey script needs, where passkeys are on.
    pub passkey: Option<PasskeyUi>,
}

/// The query of the request, where it has one.
pub open spec fn request_query(url: Option<Seq<char>>) -> Option<Seq<char>> {
    match url {
        Some(u) => if u.contains('?') {
            Some(text::behind(u, '?'))
        } else {
            None
        },
        None => None,
    }
}

/// What a page of a flow is shown with: the hints and the client are those of the request that the
/// flow returns to, where it has a query.
pub fn render_browser_flow(
    scope: &Scope,
    request_url: Option<&str>,
    passkeys: Option<PasskeyOffer>,
) -> (r: PagePlan)
    ensures
        r.scope_path@ == login::scope_path(scope.tenant@, scope.environment@),
        match request_query(text::opt_str(request_url)) {
            Some(query) => r.hints@ == hints::hints_in(query) && text::opt_text(r.client_id)
                == util::query_value(query, "client_id"@),
            None => r.hints@ == hints::hints_of(None, None, None, None, None) && r.client_id
                is None,
        },
        match passkeys {
            Some(offer) => r.passkey matches Some(ui) && ui.nonce@ == offer.nonce@
                && ui.scope_path@ == r.scope_path@ && ui.signal_api == offer.signal_api,
            None => r.passkey is None,
        },
{
    let scope_path = login::path_of(scope);
    let passkey = match passkeys {
        Some(offer) => Some(
            PasskeyUi {
                nonce: offer.nonce,
                scope_path: scope_path.clone(),
                signal_api: offer.signal_api,
            },
        ),
        None => None,
    };
    match request_url {
        Some(url) => {
            if text::contains_char(url, '?') {
                let (_, query) = text::sides(url, '?');
                return PagePlan {
                    scope_path,
                    hints: InteractionHints::from_query(query.as_str()),
                    client_id: util::query_get(query.as_str(), "client_id"),
                    passkey,
                };
            }
        },
        None => {},
    }
    PagePlan { scope_path, hints: InteractionHints::default(), client_id: None, passkey }
}

// ---------------------------------------------------------------------------
// Laws
// ---------------------------------------------------------------------------

/// The answer carries the version of the contract.
pub open spec fn carries_contract(step: BrowserStep, contract_header: Seq<char>) -> bool {
    match step {
        BrowserStep::Page { page, contract } => versions(contract, contract_header),
        BrowserStep::Redirect(a) => a@.headers.contains((contract_header, FLOW_CONTRACT_VERSION@)),
        _ => false,
    }
}

/// However a flow goes on, both transports tell the version of the contract.
pub proof fn law_every_answer_carries_the_contract(
    driven: Result<Continuation, FlowFault>,
    contract_header: Seq<char>,
    step: BrowserStep,
)
    requires
        browser_answer(driven, contract_header, step),
    ensures
        api_answer(driven, contract_header).headers.contains(
            (contract_header, FLOW_CONTRACT_VERSION@),
        ),
        carries_contract(step, contract_header),
{
    let version = (contract_header, FLOW_CONTRACT_VERSION@);
    assert(api_answer(driven, contract_header).headers[1] == version);
    match step {
        BrowserStep::Redirect(a) => {
            assert(a@.headers.last() == version);
        },
        _ => {},
    }
}

/// A program that ends up with a session gets the same cookies as a browser would, where the
/// browser can be sent on with them.
pub proof fn law_both_transports_set_the_same_cookies(
    session: SessionCookies,
    return_to: Option<String>,
    contract_header: Seq<char>,
    step: BrowserStep,
)
    requires
        browser_answer(Ok(Continuation::Complete { session, return_to }), contract_header, step),
        return_to is Some ==> reply::sendable(return_to->0@),
        forall|k: int|
            0 <= k < session.values().len() ==> reply::sendable(#[trigger] session.values()[k]),
    ensures
        api_answer(Ok(Continuation::Complete { session, return_to }), contract_header).headers
            == seq![
            ("content-type"@, "application/json"@),
            (contract_header, FLOW_CONTRACT_VERSION@),
        ] + interaction::set_cookies(session.values()),
        match step {
            BrowserStep::Redirect(a) => a@.headers == interaction::redirect_to(
                return_to->0@,
            ).headers + interaction::set_cookies(session.values()) + seq![
                (contract_header, FLOW_CONTRACT_VERSION@),
            ],
            BrowserStep::Page { page, contract } => signs_in(page, session.values()),
            _ => false,
        },
{
    assert(seq![("content-type"@, "application/json"@)].push(
        (contract_header, FLOW_CONTRACT_VERSION@),
    ) =~= seq![
        ("content-type"@, "application/json"@),
        (contract_header, FLOW_CONTRACT_VERSION@),
    ]);
}

/// A redirect elsewhere begins no session: neither transport sets a cookie.
pub proof fn law_a_redirect_elsewhere_sets_no_cookie(
    url: String,
    contract_header: Seq<char>,
    step: BrowserStep,
)
    requires
        browser_answer(Ok(Continuation::Redirect { url }), contract_header, step),
    ensures
        api_answer(Ok(Continuation::Redirect { url }), contract_header).headers == seq![
            ("content-type"@, "application/json"@),
            (contract_header, FLOW_CONTRACT_VERSION@),
        ],
        step matches BrowserStep::Redirect(a) && a@ == under_contract(
            interaction::redirect_to(url@),
            contract_header,
        ),
{
}

/// The names of the journeys are told apart, so a path begins one journey at most.
pub proof fn law_journeys_are_told_apart(a: Journey, b: Journey)
    requires
        a.name() == b.name(),
    ensures
        a == b,
{
    reveal_strlit("login");
    reveal_strlit("registration");
    reveal_strlit("recovery");
    reveal_strlit("federation");
    reveal_strlit("consent");
    reveal_strlit("mfa");
    reveal_strlit("custom");
    assert("login"@.len() == 5);
    assert("registration"@.len() == 12);
    assert("recovery"@.len() == 8);
    assert("federation"@.len() == 10);
    assert("consent"@.len() == 7);
    assert("mfa"@.len() == 3);
    assert("custom"@.len() == 6);
    assert(a.name().len() == b.name().len());
}

/// A flow begins with the journey that its path names, where flows are on and the path is that of a
/// scope: with a login, a registration, a recovery or a federation. With any other name there is no
/// such flow, and while flows are off there is nothing.
pub proof fn law_a_flow_begins_with_the_journey_of_its_path(
    enabled: bool,
    in_scope: bool,
    journey: Seq<char>,
    step: CreateStep,
)
    requires
        begun(enabled, in_scope, journey, step),
    ensures
        !enabled ==> step is Disabled,
        enabled && !in_scope ==> step is NoSuchFlow,
        enabled && in_scope && journey == "login"@ ==> step == CreateStep::Create(Journey::Login),
        enabled && in_scope && journey == "registration"@ ==> step == CreateStep::Create(
            Journey::Registration,
        ),
        enabled && in_scope && journey == "recovery"@ ==> step == CreateStep::Create(Journey::Recovery),
        enabled && in_scope && journey == "federation"@ ==> step == CreateStep::Create(
            Journey::Federation,
        ),
        enabled && in_scope && journey != "login"@ && journey != "registration"@ && journey
            != "recovery"@ && journey != "federation"@ ==> step is NoSuchFlow,
{
    assert(Journey::Login.name() == "login"@);
    assert(Journey::Registration.name() == "registration"@);
    assert(Journey::Recovery.name() == "recovery"@);
    assert(Journey::Federation.name() == "federation"@);
    if let CreateStep::Create(j) = step {
        if journey == "login"@ {
            law_journeys_are_told_apart(j, Journey::Login);
        }
        if journey == "registration"@ {
            law_journeys_are_told_apart(j, Journey::Registration);
        }
        if journey == "recovery"@ {
            law_journeys_are_told_apart(j, Journey::Recovery);
        }
        if journey == "federation"@ {
            law_journeys_are_told_apart(j, Journey::Federation);
        }
    }
}

/// A flow reads each value of a form that is there, under its own name and as it was sent, and
/// nothing else of the form.
pub proof fn law_a_value_is_read_under_its_name(form: BrowserSubmitForm)
    ensures
        form.identifier matches Some(v) ==> values_of(form).contains(("identifier"@, v@)),
        form.password matches Some(v) ==> values_of(form).contains(("password"@, v@)),
        form.code matches Some(v) ==> values_of(form).contains(("code"@, v@)),
        form.pow_challenge_id matches Some(v) ==> values_of(form).contains(("pow_challenge_id"@, v@)),
        form.pow_nonce matches Some(v) ==> values_of(form).contains(("pow_nonce"@, v@)),
        form.pow_context matches Some(v) ==> values_of(form).contains(("pow_context"@, v@)),
        form.pow_token matches Some(v) ==> values_of(form).contains(("pow_token"@, v@)),
        values_of(form).len() == (if form.identifier is Some {
            1int
        } else {
            0
        }) + (if form.password is Some {
            1int
        } else {
            0
        }) + (if form.code is Some {
            1int
        } else {
            0
        }) + (if form.pow_challenge_id is Some {
            1int
        } else {
            0
        }) + (if form.pow_nonce is Some {
            1int
        } else {
            0
        }) + (if form.pow_context is Some {
            1int
        } else {
            0
        }) + (if form.pow_token is Some {
            1int
        } else {
            0
        }),
{
    let s0 = Seq::<(Seq<char>, Seq<char>)>::empty();
    let s1 = s0 + value_of("identifier"@, text::opt_text(form.identifier));
    lemma_value_added(s0, "identifier"@, text::opt_text(form.identifier));
    let s2 = s1 + value_of("password"@, text::opt_text(form.password));
    lemma_value_added(s1, "password"@, text::opt_text(form.password));
    let s3 = s2 + value_of("code"@, text::opt_text(form.code));
    lemma_value_added(s2, "code"@, text::opt_text(form.code));
    let s4 = s3 + value_of("pow_challenge_id"@, text::opt_text(form.pow_challenge_id));
    lemma_value_added(s3, "pow_challenge_id"@, text::opt_text(form.pow_challenge_id));
    let s5 = s4 + value_of("pow_nonce"@, text::opt_text(form.pow_nonce));
    lemma_value_added(s4, "pow_nonce"@, text::opt_text(form.pow_nonce));
    let s6 = s5 + value_of("pow_context"@, text::opt_text(form.pow_context));
    lemma_value_added(s5, "pow_context"@, text::opt_text(form.pow_context));
    let s7 = s6 + value_of("pow_token"@, text::opt_text(form.pow_token));
    lemma_value_added(s6, "pow_token"@, text::opt_text(form.pow_token));
    assert(s1 =~= value_of("identifier"@, text::opt_text(form.identifier)));
    assert(s7 == values_of(form));
}

proof fn lemma_value_added(
    before: Seq<(Seq<char>, Seq<char>)>,
    name: Seq<char>,
    value: Option<Seq<char>>,
)
    ensures
        (before + value_of(name, value)).len() == before.len() + (if value is Some {
            1int
        } else {
            0
        }),
        value matches Some(v) ==> (before + value_of(name, value)).contains((name, v)),
        forall|pair: (Seq<char>, Seq<char>)| #[trigger]
            before.contains(pair) ==> (before + value_of(name, value)).contains(pair),
{
    let after = before + value_of(name, value);
    if value is Some {
        assert(after[before.len() as int] == (name, value->0));
    }
    assert forall|pair: (Seq<char>, Seq<char>)| #[trigger]
        before.contains(pair) implies after.contains(pair) by {
        let k = choose|k: int| 0 <= k < before.len() && before[k] == pair;
        assert(after[k] == pair);
    }
}

/// An error is told to a program with its status and the version of the contract: as the number and
/// the text of its message, or, where there is none, as a failure of the server.
pub proof fn law_an_error_is_told_with_its_status(fault: FlowFault, contract_header: Seq<char>)
    ensures
        faulted(fault, contract_header).status == fault.status,
        faulted(fault, contract_header).headers == seq![
            ("content-type"@, "application/json"@),
            (contract_header, "1"@),
        ],
        fault.message matches Some((id, said)) ==> faulted(fault, contract_header).body
            == json::json_object_text(
            seq![
                (
                    "error"@,
                    json::FieldView::Value(
                        json::json_object(
                            seq![
                                ("id"@, json::FieldView::Int(id as int)),
                                ("text"@, json::FieldView::Text(said@)),
                            ],
                        ),
                    ),
                ),
            ],
        ),
        fault.message is None ==> faulted(fault, contract_header).body == json::json_object_text(
            seq![
                (
                    "error"@,
                    json::FieldView::Value(
                        json::json_object(
                            seq![("text"@, json::FieldView::Text("server_error"@))],
                        ),
                    ),
                ),
            ],
        ),
{
    assert(seq![("content-type"@, "application/json"@)].push((contract_header, "1"@)) =~= seq![
        ("content-type"@, "application/json"@),
        (contract_header, "1"@),
    ]);
}

/// A program is told how its flow goes on: the flow and the token of the next submission; that it is
/// complete, and where to go on if anywhere; or where to go on elsewhere. Each with success, in JSON.
pub proof fn law_a_program_is_told_how_its_flow_goes_on(
    flow: serde_json::Value,
    submit_token: String,
    session: SessionCookies,
    return_to: Option<String>,
    url: String,
    contract_header: Seq<char>,
)
    ensures
        ({
            let r = api_answer(Ok(Continuation::Render { flow, submit_token }), contract_header);
            r.status == 200 && r.body == json::json_object_text(
                seq![
                    ("flow"@, json::FieldView::Value(flow)),
                    ("submit_token"@, json::FieldView::Text(submit_token@)),
                ],
            )
        }),
        return_to is Some ==> ({
            let r = api_answer(Ok(Continuation::Complete { session, return_to }), contract_header);
            r.status == 200 && r.body == json::json_object_text(
                seq![
                    ("state"@, json::FieldView::Text("completed"@)),
                    (
                        "continue_with"@,
                        json::FieldView::Value(
                            json::json_object(seq![("redirect_to"@, json::FieldView::Text(return_to->0@))]),
                        ),
                    ),
                ],
            )
        }),
        return_to is None ==> ({
            let r = api_answer(Ok(Continuation::Complete { session, return_to }), contract_header);
            r.status == 200 && r.body == json::json_object_text(
                seq![
                    ("state"@, json::FieldView::Text("completed"@)),
                    (
                        "continue_with"@,
                        json::FieldView::Value(
                            json::json_object(seq![("redirect_to"@, json::FieldView::Null)]),
                        ),
                    ),
                ],
            )
        }),
        ({
            let r = api_answer(Ok(Continuation::Redirect { url }), contract_header);
            r.status == 200 && r.body == json::json_object_text(
                seq![
                    ("state"@, json::FieldView::Text("redirect"@)),
                    (
                        "continue_with"@,
                        json::FieldView::Value(
                            json::json_object(
                                seq![("redirect_to"@, json::FieldView::Text(url@))],
                            ),
                        ),
                    ),
                ],
            )
        }),
{
}

/// A browser is shown the flow where it goes on; is sent back with the cookies of its session where
/// the flow is complete and returns somewhere, and else is told that it signed in; is sent elsewhere
/// where the flow goes on there; and is told of an error in its words and with its status.
pub proof fn law_a_browser_is_shown_how_its_flow_goes_on(
    driven: Result<Continuation, FlowFault>,
    contract_header: Seq<char>,
    step: BrowserStep,
)
    requires
        browser_answer(driven, contract_header, step),
    ensures
        driven matches Ok(Continuation::Render { flow, submit_token }) ==> (
        step matches BrowserStep::Page { page, contract } && page == BrowserPage::Show(flow)),
        driven matches Ok(Continuation::Complete { session, return_to }) ==> (return_to matches Some(
            target,
        ) ==> (reply::sendable(target@) && (forall|k: int|
            0 <= k < session.values().len() ==> reply::sendable(#[trigger] session.values()[k])) ==> (
        step matches BrowserStep::Redirect(a) && a@.status == 303 && a@.headers[0] == (
            "location"@,
            target@,
        ) && (forall|k: int|
            0 <= k < session.values().len() ==> a@.headers.contains(
                ("set-cookie"@, #[trigger] session.values()[k]),
            ))))),
        driven matches Ok(Continuation::Complete { session, return_to }) ==> (return_to is None ==> (
        step matches BrowserStep::Page { page, contract } && (page matches BrowserPage::SignedIn(set)
            && text::texts(set@) == session.values()))),
        driven matches Ok(Continuation::Redirect { url }) ==> (reply::sendable(url@) ==> (
        step matches BrowserStep::Redirect(a) && a@.status == 303 && a@.headers[0] == (
            "location"@,
            url@,
        ))),
        driven matches Err(fault) ==> (step matches BrowserStep::Page { page, contract } && (
        page matches BrowserPage::Tell { status, text: said } && status == fault.status && (
        fault.message matches Some((_, message)) ==> said@ == message@) && (fault.message is None
            ==> said@ == "The request could not be processed."@))),
{
    if let Ok(Continuation::Complete { session, return_to }) = driven {
        if let Some(target) = return_to {
            if let BrowserStep::Redirect(a) = step {
                if reply::sendable(target@) && (forall|k: int|
                    0 <= k < session.values().len() ==> reply::sendable(
                        #[trigger] session.values()[k],
                    )) {
                    assert forall|k: int| 0 <= k < session.values().len() implies a@.headers.contains(
                        ("set-cookie"@, #[trigger] session.values()[k]),
                    ) by {
                        assert(a@.headers[3 + k] == ("set-cookie"@, session.values()[k]));
                    }
                }
            }
        }
    }
}

/// The default language is the last that is marked as such and has a tag; where there is none it is
/// English.
pub proof fn law_the_last_marked_language_is_the_default(
    installed: Seq<InstalledLocale>,
    next: InstalledLocale,
)
    ensures
        default_of(Seq::empty()) == "en"@,
        next.is_env_default ==> (next.tag matches Some(tag) ==> default_of(installed.push(next))
            == tag@),
        !next.is_env_default || next.tag is None ==> default_of(installed.push(next)) == default_of(
            installed,
        ),
{
    assert(installed.push(next).drop_last() =~= installed);
}

/// The query of a request is what stands behind its first question mark; without one there is none.
pub proof fn law_a_request_has_the_query_of_its_url(path: Seq<char>, query: Seq<char>)
    requires
        !path.contains('?'),
    ensures
        request_query(Some(path + seq!['?'] + query)) == Some(query),
        request_query(Some(path)) is None,
        request_query(None) is None,
{
    text::law_a_text_has_two_sides(path, query, '?');
    assert((path + seq!['?'] + query)[path.len() as int] == '?');
}

} // verus!
