//! The hints that an authorization request carries into the interaction pages.
//!
//! They steer the pages and decide nothing: an identifier to prefill, a language, a layout. They
//! are parsed once, ride along in the query to which an interaction returns, and are read back
//! from it.

use vstd::prelude::*;

use crate::text;
use crate::util;

verus! {

/// The `display` value: how the pages are to be presented. Only `page` is rendered in a way of
/// its own; the others are carried, and rendered as a page.
#[derive(Debug, Clone, Copy, PartialEq, Eq, Structural)]
pub enum Display {
    /// A full page.
    Page,
    /// A popup window.
    Popup,
    /// A touch device.
    Touch,
    /// A feature phone.
    Wap,
}

impl Default for Display {
    fn default() -> (r: Display)
        ensures
            r is Page,
    {
        Display::Page
    }
}

impl Display {
    /// Every value.
    pub const ALL: [Display; 4] = [Display::Page, Display::Popup, Display::Touch, Display::Wap];

    /// The values that are rendered in a way of their own, and therefore advertised.
    pub const SUPPORTED: [Display; 1] = [Display::Page];

    /// How the value is written.
    pub open spec fn name(self) -> Seq<char> {
        match self {
            Display::Page => "page"@,
            Display::Popup => "popup"@,
            Display::Touch => "touch"@,
            Display::Wap => "wap"@,
        }
    }

    /// How the value is written.
    pub fn as_str(self) -> (r: &'static str)
        ensures
            r@ == self.name(),
    {
        match self {
            Display::Page => "page",
            Display::Popup => "popup",
            Display::Touch => "touch",
            Display::Wap => "wap",
        }
    }

    /// The value that a text stands for, white space around it aside.
    pub open spec fn of_text(raw: Seq<char>) -> Option<Display> {
        let t = text::trim(raw);
        if t == "page"@ {
            Some(Display::Page)
        } else if t == "popup"@ {
            Some(Display::Popup)
        } else if t == "touch"@ {
            Some(Display::Touch)
        } else if t == "wap"@ {
            Some(Display::Wap)
        } else {
            None
        }
    }

    /// Parses a `display` value; any that is not known counts as absent.
    pub fn parse(raw: &str) -> (r: Option<Display>)
        ensures
            r == Display::of_text(raw@),
    {
        let t: String = text::trimmed(raw);
        if text::same(t.as_str(), "page") {
            Some(Display::Page)
        } else if text::same(t.as_str(), "popup") {
            Some(Display::Popup)
        } else if text::same(t.as_str(), "touch") {
            Some(Display::Touch)
        } else if text::same(t.as_str(), "wap") {
            Some(Display::Wap)
        } else {
            None
        }
    }
}

/// Trims a raw value; an empty one counts as absent.
pub open spec fn cleaned(value: Option<Seq<char>>) -> Option<Seq<char>> {
    match value {
        Some(v) => if text::trim(v).len() == 0 {
            None
        } else {
            Some(text::trim(v))
        },
        None => None,
    }
}

/// Trims a raw value; an empty one counts as absent.
pub fn clean(value: Option<&str>) -> (r: Option<String>)
    ensures
        text::opt_text(r) == cleaned(text::opt_str(value)),
{
    match value {
        Some(v) => {
            let t: String = text::trimmed(v);
            if t.as_str().is_empty() {
                None
            } else {
                Some(t)
            }
        },
        None => None,
    }
}

/// The most characters of a language tag.
pub const MAX_LANGUAGE_TAG: usize = 35;

/// A conservative language tag: letters, digits and hyphens, neither none nor too many.
pub open spec fn language_tag(tag: Seq<char>) -> bool {
    &&& 0 < tag.len() <= MAX_LANGUAGE_TAG
    &&& forall|i: int|
        0 <= i < tag.len() ==> text::alphanumeric(#[trigger] tag[i]) || tag[i] == '-'
}

/// Whether `tag` is a conservative language tag, so that it may become an attribute of a page.
pub fn is_language_tag(tag: &str) -> (r: bool)
    ensures
        r == language_tag(tag@),
{
    let v: Vec<char> = text::chars_of(tag);
    if v.len() == 0 || v.len() > MAX_LANGUAGE_TAG {
        return false;
    }
    let mut i: usize = 0;
    while i < v.len()
        invariant
            v@ == tag@,
            i <= v@.len(),
            forall|k: int|
                0 <= k < i ==> text::alphanumeric(#[trigger] tag@[k]) || tag@[k] == '-',
        decreases v@.len() - i,
    {
        let c: char = v[i];
        let ok: bool = ('0' <= c && c <= '9') || ('a' <= c && c <= 'z') || ('A' <= c && c <= 'Z')
            || c == '-';
        if !ok {
            assert(!(text::alphanumeric(tag@[i as int]) || tag@[i as int] == '-'));
            return false;
        }
        i = i + 1;
    }
    true
}

/// The hints of one authorization request.
#[derive(Debug, PartialEq, Eq)]
pub struct InteractionHints {
    login_hint: Option<String>,
    logout_hint: Option<String>,
    ui_locales: Option<String>,
    claims_locales: Option<String>,
    display: Option<Display>,
}

/// The model of [`InteractionHints`].
pub struct HintsView {
    pub login_hint: Option<Seq<char>>,
    pub logout_hint: Option<Seq<char>>,
    pub ui_locales: Option<Seq<char>>,
    pub claims_locales: Option<Seq<char>>,
    pub display: Option<Display>,
}

impl View for InteractionHints {
    type V = HintsView;

    closed spec fn view(&self) -> HintsView {
        HintsView {
            login_hint: text::opt_text(self.login_hint),
            logout_hint: text::opt_text(self.logout_hint),
            ui_locales: text::opt_text(self.ui_locales),
            claims_locales: text::opt_text(self.claims_locales),
            display: self.display,
        }
    }
}

/// The hints in these raw values.
pub open spec fn hints_of(
    login_hint: Option<Seq<char>>,
    logout_hint: Option<Seq<char>>,
    ui_locales: Option<Seq<char>>,
    claims_locales: Option<Seq<char>>,
    display: Option<Seq<char>>,
) -> HintsView {
    HintsView {
        login_hint: cleaned(login_hint),
        logout_hint: cleaned(logout_hint),
        ui_locales: cleaned(ui_locales),
        claims_locales: cleaned(claims_locales),
        display: match display {
            Some(d) => Display::of_text(d),
            None => None,
        },
    }
}

/// The hints in a query string.
pub open spec fn hints_in(query: Seq<char>) -> HintsView {
    hints_of(
        util::query_value(query, "login_hint"@),
        util::query_value(query, "logout_hint"@),
        util::query_value(query, "ui_locales"@),
        util::query_value(query, "claims_locales"@),
        util::query_value(query, "display"@),
    )
}

/// The language of the pages where no other is asked for.
pub const DEFAULT_LANG: &'static str = "en";

impl HintsView {
    /// The language of the pages: the first of the locales where it is a tag.
    pub open spec fn spec_lang(self) -> Seq<char> {
        match self.ui_locales {
            Some(locales) => {
                let tags = text::words(locales);
                if tags.len() > 0 && language_tag(tags[0]) {
                    tags[0]
                } else {
                    DEFAULT_LANG@
                }
            },
            None => DEFAULT_LANG@,
        }
    }
}

/// The borrowed text of an optional string.
pub fn borrowed(o: &Option<String>) -> (r: Option<&str>)
    ensures
        text::opt_str(r) == text::opt_text(*o),
{
    match o {
        Some(s) => Some(s.as_str()),
        None => None,
    }
}

impl Default for InteractionHints {
    fn default() -> (r: InteractionHints)
        ensures
            r@ == hints_of(None, None, None, None, None),
    {
        InteractionHints {
            login_hint: None,
            logout_hint: None,
            ui_locales: None,
            claims_locales: None,
            display: None,
        }
    }
}

impl InteractionHints {
    /// The hints in the raw parameters of a request. Each is trimmed, and an empty one counts as
    /// absent, as does a `display` that is not known.
    pub fn from_request(
        login_hint: Option<&str>,
        logout_hint: Option<&str>,
        ui_locales: Option<&str>,
        claims_locales: Option<&str>,
        display: Option<&str>,
    ) -> (r: InteractionHints)
        ensures
            r@ == hints_of(
                text::opt_str(login_hint),
                text::opt_str(logout_hint),
                text::opt_str(ui_locales),
                text::opt_str(claims_locales),
                text::opt_str(display),
            ),
    {
        InteractionHints {
            login_hint: clean(login_hint),
            logout_hint: clean(logout_hint),
            ui_locales: clean(ui_locales),
            claims_locales: clean(claims_locales),
            display: match display {
                Some(d) => Display::parse(d),
                None => None,
            },
        }
    }

    /// The hints in the query to which an interaction returns.
    pub fn from_query(query: &str) -> (r: InteractionHints)
        ensures
            r@ == hints_in(query@),
    {
        let login_hint = util::query_get(query, "login_hint");
        let logout_hint = util::query_get(query, "logout_hint");
        let ui_locales = util::query_get(query, "ui_locales");
        let claims_locales = util::query_get(query, "claims_locales");
        let display = util::query_get(query, "display");
        InteractionHints::from_request(
            borrowed(&login_hint),
            borrowed(&logout_hint),
            borrowed(&ui_locales),
            borrowed(&claims_locales),
            borrowed(&display),
        )
    }

    /// The identifier to prefill.
    pub fn login_hint(&self) -> (r: Option<&str>)
        ensures
            text::opt_str(r) == self@.login_hint,
    {
        borrowed(&self.login_hint)
    }

    /// The logout hint, which is carried only.
    pub fn logout_hint(&self) -> (r: Option<&str>)
        ensures
            text::opt_str(r) == self@.logout_hint,
    {
        borrowed(&self.logout_hint)
    }

    /// The preferred languages of the pages.
    pub fn ui_locales(&self) -> (r: Option<&str>)
        ensures
            text::opt_str(r) == self@.ui_locales,
    {
        borrowed(&self.ui_locales)
    }

    /// The preferred languages of claims.
    pub fn claims_locales(&self) -> (r: Option<&str>)
        ensures
            text::opt_str(r) == self@.claims_locales,
    {
        borrowed(&self.claims_locales)
    }

    /// The layout: a page where none was asked for.
    pub fn display(&self) -> (r: Display)
        ensures
            r == (match self@.display {
                Some(d) => d,
                None => Display::Page,
            }),
    {
        match self.display {
            Some(d) => d,
            None => Display::Page,
        }
    }

    /// The layout that was asked for, as it is written. None is made up where none was.
    pub fn display_param(&self) -> (r: Option<&'static str>)
        ensures
            text::opt_str(r) == (match self@.display {
                Some(d) => Some(d.name()),
                None => None,
            }),
    {
        match self.display {
            Some(d) => Some(d.as_str()),
            None => None,
        }
    }

    /// The language of the pages: the first of the preferred ones where it is a conservative
    /// tag, else English.
    pub fn lang(&self) -> (r: String)
        ensures
            r@ == self@.spec_lang(),
    {
        match &self.ui_locales {
            Some(locales) => {
                let tags: Vec<String> = text::words_of(locales.as_str());
                let ghost all = text::texts(tags@);
                if tags.len() > 0 && is_language_tag(tags[0].as_str()) {
                    assert(all[0] == tags@[0]@);
                    tags[0].clone()
                } else {
                    assert(tags@.len() > 0 ==> all[0] == tags@[0]@);
                    DEFAULT_LANG.to_owned()
                }
            },
            None => DEFAULT_LANG.to_owned(),
        }
    }
}

// ---------------------------------------------------------------------------
// Laws
// ---------------------------------------------------------------------------

/// A value is parsed back from how it is written.
pub proof fn law_display_is_parsed_back(display: Display)
    ensures
        Display::of_text(display.name()) == Some(display),
{
    reveal_strlit("page");
    reveal_strlit("popup");
    reveal_strlit("touch");
    reveal_strlit("wap");
    let t = display.name();
    assert(t.len() > 0);
    assert(!text::white_space(t[0]) && !text::white_space(t.last()));
    assert(text::trim(t) == t);
    assert("page"@.len() == 4 && "popup"@.len() == 5 && "touch"@.len() == 5 && "wap"@.len() == 3);
    assert("popup"@[0] == 'p' && "touch"@[0] == 't');
}

/// Only letters, digits and hyphens reach the language of a page, and never none.
pub proof fn law_the_language_is_a_tag(hints: HintsView)
    ensures
        language_tag(hints.spec_lang()),
{
    reveal_strlit("en");
    assert(DEFAULT_LANG@.len() == 2 && DEFAULT_LANG@[0] == 'e' && DEFAULT_LANG@[1] == 'n');
}

/// A value that is blank counts as absent, and any other is itself without the white space around
/// it.
pub proof fn law_a_blank_value_is_absent(before: Seq<char>, value: Seq<char>, after: Seq<char>)
    requires
        forall|k: int| 0 <= k < before.len() ==> text::white_space(#[trigger] before[k]),
        forall|k: int| 0 <= k < after.len() ==> text::white_space(#[trigger] after[k]),
        value.len() > 0 ==> !text::white_space(value[0]) && !text::white_space(value.last()),
    ensures
        cleaned(Some(before + value + after)) == (if value.len() == 0 {
            None
        } else {
            Some(value)
        }),
        cleaned(None) is None,
{
    text::law_trimming_takes_off_white_space(before, value, after);
}

/// The hints are those of the request, each under its own name; the page shows the language that
/// comes first among the preferred ones where it is a tag, and English otherwise.
pub proof fn law_each_hint_is_read_under_its_name(query: Seq<char>)
    ensures
        hints_in(query).login_hint == cleaned(util::query_value(query, "login_hint"@)),
        hints_in(query).logout_hint == cleaned(util::query_value(query, "logout_hint"@)),
        hints_in(query).ui_locales == cleaned(util::query_value(query, "ui_locales"@)),
        hints_in(query).claims_locales == cleaned(util::query_value(query, "claims_locales"@)),
        util::query_value(query, "display"@) is None ==> hints_in(query).display is None,
        util::query_value(query, "display"@) matches Some(d) ==> hints_in(query).display
            == Display::of_text(d),
        hints_in(query).ui_locales is None ==> hints_in(query).spec_lang() == "en"@,
        hints_in(query).ui_locales matches Some(l) ==> (text::words(l).len() > 0 && language_tag(
            text::words(l)[0],
        ) ==> hints_in(query).spec_lang() == text::words(l)[0]),
{
}

/// A layout is known by its name alone, whatever white space is around it, and nothing else is one.
pub proof fn law_only_the_four_layouts_are_known(raw: Seq<char>)
    ensures
        text::trim(raw) == "page"@ ==> Display::of_text(raw) == Some(Display::Page),
        text::trim(raw) == "popup"@ ==> Display::of_text(raw) == Some(Display::Popup),
        text::trim(raw) == "touch"@ ==> Display::of_text(raw) == Some(Display::Touch),
        text::trim(raw) == "wap"@ ==> Display::of_text(raw) == Some(Display::Wap),
        text::trim(raw) != "page"@ && text::trim(raw) != "popup"@ && text::trim(raw) != "touch"@
            && text::trim(raw) != "wap"@ ==> Display::of_text(raw) is None,
{
    reveal_strlit("page");
    reveal_strlit("popup");
    reveal_strlit("touch");
    reveal_strlit("wap");
    assert("page"@.len() == 4 && "popup"@.len() == 5 && "touch"@.len() == 5 && "wap"@.len() == 3);
    assert("popup"@[0] == 'p' && "touch"@[0] == 't');
}

/// A language tag has a letter, a digit or a hyphen at each of its places, and from one to
/// thirty-five of them; nothing else is one.
pub proof fn law_a_language_tag_is_short_and_plain(tag: Seq<char>, i: int)
    ensures
        tag.len() == 0 || tag.len() > 35 ==> !language_tag(tag),
        0 <= i < tag.len() && !text::alphanumeric(tag[i]) && tag[i] != '-' ==> !language_tag(tag),
        1 <= tag.len() <= 35 && (forall|k: int|
            0 <= k < tag.len() ==> text::alphanumeric(#[trigger] tag[k]) || tag[k] == '-')
            ==> language_tag(tag),
{
}

/// The pages are in the first of the locales that are asked for, where that is a language tag; else,
/// and where none is asked for, they are in English.
pub proof fn law_the_first_locale_is_the_language(hints: HintsView)
    ensures
        hints.ui_locales is None ==> hints.spec_lang() == "en"@,
        hints.ui_locales matches Some(locales) ==> {
            &&& text::words(locales).len() == 0 ==> hints.spec_lang() == "en"@
            &&& text::words(locales).len() > 0 && language_tag(text::words(locales)[0])
                ==> hints.spec_lang() == text::words(locales)[0]
            &&& text::words(locales).len() > 0 && !language_tag(text::words(locales)[0])
                ==> hints.spec_lang() == "en"@
        },
{
}

} // verus!
