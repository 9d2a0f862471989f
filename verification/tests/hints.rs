use ironauth_oidc::hints::{Display, InteractionHints};

#[test]
fn display_parses_the_four_values_and_rejects_the_rest() {
    for display in Display::ALL {
        assert_eq!(Display::parse(display.as_str()), Some(display));
    }
    assert_eq!(Display::parse(" page "), Some(Display::Page));
    for unknown in ["", "PAGE", "screen", "  "] {
        assert!(Display::parse(unknown).is_none(), "{unknown:?}");
    }
}

#[test]
fn only_page_is_advertised_as_supported() {
    assert_eq!(Display::SUPPORTED, [Display::Page]);
    assert_eq!(Display::default(), Display::Page);
}

#[test]
fn from_request_trims_and_treats_empty_as_absent() {
    let hints = InteractionHints::from_request(
        Some("  ada@example.test  "),
        Some(""),
        Some("fr-CA en"),
        Some("   "),
        Some("popup"),
    );
    assert_eq!(hints.login_hint(), Some("ada@example.test"));
    assert_eq!(hints.logout_hint(), None, "empty logout_hint is absent");
    assert_eq!(hints.ui_locales(), Some("fr-CA en"));
    assert_eq!(hints.claims_locales(), None, "blank claims_locales absent");
    assert_eq!(hints.display(), Display::Popup);
    assert_eq!(hints.display_param(), Some("popup"));
}

#[test]
fn absent_display_defaults_to_page_without_injecting_a_param() {
    let hints = InteractionHints::from_request(None, None, None, None, None);
    assert_eq!(hints.display(), Display::Page, "default layout");
    assert_eq!(
        hints.display_param(),
        None,
        "no display is carried when none was requested"
    );
    assert_eq!(hints.lang(), "en", "default language");
}

#[test]
fn unknown_display_is_dropped_to_the_default() {
    let hints = InteractionHints::from_request(None, None, None, None, Some("hologram"));
    assert_eq!(hints.display(), Display::Page);
    assert_eq!(hints.display_param(), None);
}

#[test]
fn lang_uses_the_primary_ui_locale_or_falls_back_to_en() {
    assert_eq!(
        InteractionHints::from_request(None, None, Some("de-DE fr"), None, None).lang(),
        "de-DE"
    );
    assert_eq!(
        InteractionHints::from_request(None, None, Some("\"><script>"), None, None).lang(),
        "en"
    );
}

#[test]
fn from_query_round_trips_the_carried_hints() {
    let query = "client_id=cli_x&login_hint=ada%40example.test&ui_locales=fr&display=touch&\
         logout_hint=sess-9&claims_locales=en";
    let hints = InteractionHints::from_query(query);
    assert_eq!(hints.login_hint(), Some("ada@example.test"));
    assert_eq!(hints.logout_hint(), Some("sess-9"));
    assert_eq!(hints.ui_locales(), Some("fr"));
    assert_eq!(hints.claims_locales(), Some("en"));
    assert_eq!(hints.display(), Display::Touch);
}
