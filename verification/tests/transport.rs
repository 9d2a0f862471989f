use ironauth_oidc::flow::transport::{
    api_flow_envelope, creation_journey, env_default_locale, error_html, error_json,
    flow_api_create, flow_api_submit, flow_brand_asset, flow_browser_get, flow_browser_post,
    flow_stylesheet, node_values, render_browser_flow, resolve_brand, with_contract_header, ApiStep,
    AssetStep, BrandAssetKind, BrowserPage, BrowserStep, BrowserSubmitForm, Continuation, CreateStep,
    FlowFault, FlowSubmission, InstalledLocale, StylesheetQuery, StylesheetStep,
};
use ironauth_oidc::flow::wire_identity::Journey;
use ironauth_oidc::headers::Headers;
use ironauth_oidc::interaction::SessionCookies;
use ironauth_oidc::login::PasskeyOffer;
use ironauth_oidc::reply::Reply;
use ironauth_oidc::scope_map::Scope;
use serde_json::Value;

fn json(text: &str) -> Value {
    serde_json::from_str(text).expect("json")
}

#[test]
fn a_flow_begins_with_four_journeys() {
    assert_eq!(creation_journey("login"), Some(Journey::Login));
    assert_eq!(creation_journey("registration"), Some(Journey::Registration));
    assert_eq!(creation_journey("recovery"), Some(Journey::Recovery));
    assert_eq!(creation_journey("federation"), Some(Journey::Federation));
    for other in ["mfa", "consent", "custom", "Login", ""] {
        assert_eq!(creation_journey(other), None, "{other}");
    }
    assert_eq!(flow_api_create(false, true, "login"), CreateStep::Disabled);
    assert_eq!(flow_api_create(true, false, "login"), CreateStep::NoSuchFlow);
    assert_eq!(flow_api_create(true, true, "mfa"), CreateStep::NoSuchFlow);
    assert_eq!(flow_browser_get(true, true, "login"), CreateStep::Create(Journey::Login));
}

#[test]
fn a_form_hands_on_the_values_that_are_there() {
    let form = BrowserSubmitForm {
        flow: "flw_1".to_owned(),
        identifier: Some("ada".to_owned()),
        password: Some(String::new()),
        code: None,
        pow_challenge_id: None,
        pow_nonce: Some("7".to_owned()),
        pow_context: None,
        pow_token: None,
        transient_payload: Some("{}".to_owned()),
    };
    assert_eq!(
        node_values(&form),
        vec![
            ("identifier".to_owned(), "ada".to_owned()),
            ("password".to_owned(), String::new()),
            ("pow_nonce".to_owned(), "7".to_owned()),
        ]
    );
}

fn cookies() -> SessionCookies {
    SessionCookies {
        session_id: "ses_1".to_owned(),
        session: "s=1".to_owned(),
        op_browser_state: Some("o=1".to_owned()),
    }
}

fn submission(driven: Option<Result<Continuation, FlowFault>>) -> FlowSubmission {
    FlowSubmission {
        enabled: true,
        in_scope: true,
        parsed: Ok(()),
        flow_in_scope: true,
        driven,
        no_such_flow: no_such_flow(),
        contract_header: "x-contract".to_owned(),
    }
}

fn no_such_flow() -> FlowFault {
    FlowFault {
        status: 404,
        message: Some((4_004, "No such flow.".to_owned())),
    }
}

fn version() -> (String, String) {
    ("x-contract".to_owned(), "1".to_owned())
}

fn page(page: BrowserPage) -> BrowserStep {
    BrowserStep::Page {
        page,
        contract: version(),
    }
}

fn fault() -> FlowFault {
    FlowFault {
        status: 410,
        message: Some((4_001, "Expired.".to_owned())),
    }
}

fn reply(q: FlowSubmission) -> Reply {
    match flow_api_submit(q) {
        ApiStep::Answer(reply) => {
            assert_eq!(reply.headers[1], version());
            reply
        }
        other => panic!("expected an answer, got {other:?}"),
    }
}

#[test]
fn a_program_is_told_how_its_flow_goes_on() {
    let going = reply(submission(Some(Ok(Continuation::Render {
        flow: json(r#"{"id":"flw_1"}"#),
        submit_token: "t".to_owned(),
    }))));
    assert_eq!(going.status, 200);
    assert_eq!(
        json(&going.body),
        json(r#"{"flow":{"id":"flw_1"},"submit_token":"t"}"#)
    );
    assert_eq!(
        api_flow_envelope(200, json(r#"{"id":"flw_1"}"#), "t".to_owned(), "x-contract"),
        going
    );

    let done = reply(submission(Some(Ok(Continuation::Complete {
        session: cookies(),
        return_to: None,
    }))));
    assert_eq!(
        json(&done.body),
        json(r#"{"state":"completed","continue_with":{"redirect_to":null}}"#)
    );
    let set: Vec<&str> = done
        .headers
        .iter()
        .filter(|(name, _)| name == "set-cookie")
        .map(|(_, value)| value.as_str())
        .collect();
    assert_eq!(set, vec!["s=1", "o=1"]);

    let elsewhere = reply(submission(Some(Ok(Continuation::Redirect {
        url: "https://up.test/".to_owned(),
    }))));
    assert_eq!(
        json(&elsewhere.body),
        json(r#"{"state":"redirect","continue_with":{"redirect_to":"https://up.test/"}}"#)
    );
    assert!(elsewhere.headers.iter().all(|(name, _)| name != "set-cookie"));

    let failed = reply(submission(Some(Err(fault()))));
    assert_eq!(failed.status, 410);
    assert_eq!(
        json(&failed.body),
        json(r#"{"error":{"id":4001,"text":"Expired."}}"#)
    );
    let broken = error_json(
        &FlowFault {
            status: 500,
            message: None,
        },
        "x-contract",
    );
    assert_eq!(broken.headers[1], version());
    assert_eq!(json(&broken.body), json(r#"{"error":{"text":"server_error"}}"#));
}

#[test]
fn a_submission_of_a_program_is_turned_away_where_it_has_to_be() {
    assert_eq!(flow_api_submit(submission(None)), ApiStep::Drive);
    let mut q = submission(None);
    q.flow_in_scope = false;
    assert_eq!(reply(q), error_json(&no_such_flow(), "x-contract"));
    let mut q = submission(None);
    q.parsed = Err(fault());
    q.flow_in_scope = false;
    assert_eq!(reply(q).status, 410);
    let mut q = submission(None);
    q.in_scope = false;
    assert_eq!(reply(q), error_json(&no_such_flow(), "x-contract"));
    let mut q = submission(None);
    q.enabled = false;
    assert_eq!(flow_api_submit(q), ApiStep::Disabled);
}

#[test]
fn a_browser_goes_on_with_its_flow() {
    let step = |driven| {
        flow_browser_post(submission(driven), &Headers::new(), Some("https://op.test"))
    };
    assert_eq!(step(None), BrowserStep::Drive);
    let flow = json(r#"{"id":"flw_1"}"#);
    assert_eq!(
        step(Some(Ok(Continuation::Render {
            flow: flow.clone(),
            submit_token: "t".to_owned(),
        }))),
        page(BrowserPage::Show(flow))
    );
    match step(Some(Ok(Continuation::Complete {
        session: cookies(),
        return_to: Some("/authorize?x=1".to_owned()),
    }))) {
        BrowserStep::Redirect(reply) => {
            assert_eq!(reply.status, 303);
            assert!(reply.headers.contains(&("set-cookie".to_owned(), "o=1".to_owned())));
            assert!(reply.headers.contains(&version()));
        }
        other => panic!("expected a redirect, got {other:?}"),
    }
    assert_eq!(
        step(Some(Ok(Continuation::Complete {
            session: cookies(),
            return_to: None,
        }))),
        page(BrowserPage::SignedIn(vec!["s=1".to_owned(), "o=1".to_owned()]))
    );
    assert!(matches!(
        step(Some(Ok(Continuation::Redirect { url: "https://up.test/".to_owned() }))),
        BrowserStep::Redirect(reply) if reply.headers[0].1 == "https://up.test/"
            && reply.headers.contains(&version())
    ));
    assert_eq!(step(Some(Err(fault()))), error_html(&fault(), "x-contract"));
    assert_eq!(
        error_html(&FlowFault { status: 500, message: None }, "x-contract"),
        page(BrowserPage::Tell {
            status: 500,
            text: "The request could not be processed.".to_owned(),
        })
    );
}

#[test]
fn a_browser_of_another_site_is_refused_before_its_flow_is_looked_at() {
    let mut headers = Headers::new();
    headers.insert("origin".to_owned(), "https://evil.test".to_owned());
    let mut q = submission(None);
    q.in_scope = false;
    assert!(matches!(
        flow_browser_post(q, &headers, Some("https://op.test")),
        BrowserStep::Page { page: BrowserPage::Refuse(n), contract }
            if n.status == 403 && contract == version()
    ));
    let mut q = submission(None);
    q.in_scope = false;
    assert_eq!(
        flow_browser_post(q, &Headers::new(), None),
        page(BrowserPage::Tell {
            status: 404,
            text: "No such flow.".to_owned(),
        })
    );
    let mut q = submission(None);
    q.parsed = Err(fault());
    assert!(matches!(
        flow_browser_post(q, &Headers::new(), None),
        BrowserStep::Page { page: BrowserPage::Tell { status: 410, .. }, .. }
    ));
    let mut q = submission(None);
    q.enabled = false;
    assert_eq!(flow_browser_post(q, &headers, None), BrowserStep::Disabled);
}

#[test]
fn an_answer_carries_the_contract() {
    let plain = Reply {
        status: 200,
        headers: Vec::new(),
        body: String::new(),
    };
    assert_eq!(
        with_contract_header(plain, "x-contract").headers,
        vec![("x-contract".to_owned(), "1".to_owned())]
    );
}

#[test]
fn the_stylesheet_is_that_of_the_brand_of_the_page() {
    let of = |enabled: bool, in_scope: bool, b: Option<&str>, found: Option<bool>| {
        flow_stylesheet(enabled, in_scope, StylesheetQuery { b: b.map(str::to_owned) }, found)
    };
    assert_eq!(of(false, true, Some("x"), None), StylesheetStep::Disabled);
    assert_eq!(of(true, false, Some("x"), None), StylesheetStep::Neutral);
    assert_eq!(of(true, true, None, None), StylesheetStep::Neutral);
    assert_eq!(of(true, true, Some("x"), None), StylesheetStep::FindBrand("x".to_owned()));
    assert_eq!(of(true, true, Some("x"), Some(true)), StylesheetStep::Branded);
    assert_eq!(of(true, true, Some("x"), Some(false)), StylesheetStep::Neutral);
}

#[test]
fn an_image_that_is_not_there_discloses_nothing() {
    for (enabled, in_scope, kind) in [(false, true, true), (true, false, true), (true, true, false)] {
        assert_eq!(flow_brand_asset(enabled, in_scope, kind, None), AssetStep::NotFound);
    }
    assert_eq!(flow_brand_asset(true, true, true, None), AssetStep::Find);
    assert_eq!(flow_brand_asset(true, true, true, Some(true)), AssetStep::Serve);
    assert_eq!(flow_brand_asset(true, true, true, Some(false)), AssetStep::NotFound);
}

#[test]
fn a_brand_is_the_chosen_one_with_its_images() {
    let slugs = vec!["a".to_owned(), "b".to_owned()];
    let brand = resolve_brand(&slugs, Some(1), &vec![BrandAssetKind::Favicon]).expect("a brand");
    assert_eq!(brand.slug, "b");
    assert!(!brand.has_logo && brand.has_favicon);
    assert_eq!(resolve_brand(&slugs, None, &Vec::new()), None);
    assert_eq!(resolve_brand(&slugs, Some(2), &Vec::new()), None);
}

#[test]
fn the_default_language_is_the_last_that_is_marked() {
    let locale = |tag: Option<&str>, is_env_default: bool| InstalledLocale {
        tag: tag.map(str::to_owned),
        is_env_default,
    };
    assert_eq!(env_default_locale(&Vec::new()), "en");
    assert_eq!(
        env_default_locale(&vec![
            locale(Some("fr"), true),
            locale(Some("de"), true),
            locale(None, true),
            locale(Some("it"), false),
        ]),
        "de"
    );
}

#[test]
fn a_page_is_shown_with_the_hints_of_its_request() {
    let scope = Scope::new("tnt_1", "env_1");
    let plan = render_browser_flow(
        &scope,
        Some("/authorize?client_id=cli_1&ui_locales=fr"),
        Some(PasskeyOffer {
            nonce: "n".to_owned(),
            signal_api: false,
        }),
    );
    assert_eq!(plan.scope_path, "/t/tnt_1/e/env_1");
    assert_eq!(plan.client_id.as_deref(), Some("cli_1"));
    assert_eq!(plan.hints.lang(), "fr");
    assert_eq!(plan.passkey.expect("offered").scope_path, "/t/tnt_1/e/env_1");
    let plain = render_browser_flow(&scope, Some("/authorize"), None);
    assert_eq!(plain.client_id, None);
    assert_eq!(plain.hints.lang(), "en");
    assert!(plain.passkey.is_none());
}
