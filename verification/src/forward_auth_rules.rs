//! Turning forward-auth configuration into a rule set.
//!
//! The configuration is coherent in itself when it comes here. What is decided here is whether
//! this surface can honour it. A rule that reads groups or roles is refused, for the identity of
//! a forward-auth request carries neither, and a check against an empty list turns a denial into
//! one that never bites. A context class that no session presents is refused too.

use std::sync::Arc;

use vstd::prelude::*;

use crate::authn::AuthMethod;
use crate::forward_auth;
use crate::forward_auth::{Dialect, ForwardAuth, ForwardAuthOutcome, Identity};
use crate::pattern;
use crate::rules;
use crate::rules::{Action, Criterion, Explanation, RequestFacts, Rule, RuleSet, SubjectCheck};
use crate::step_up;
use crate::text;

verus! {

// ---------------------------------------------------------------------------
// Configuration
// ---------------------------------------------------------------------------

/// What a configured rule does.
#[derive(Debug, Clone, Copy, PartialEq, Eq, Structural)]
pub enum AccessActionConfig {
    Allow,
    Deny,
    StepUp,
}

/// Whether a configured rule asks for a subject or for none.
#[derive(Debug, Clone, Copy, PartialEq, Eq, Structural)]
pub enum SubjectStateConfig {
    Authenticated,
    Anonymous,
}

/// A header that a configured rule asks for.
#[derive(Debug, PartialEq, Eq)]
pub struct HeaderMatchConfig {
    pub name: String,
    pub value: String,
}

/// One configured rule.
#[derive(Debug, PartialEq, Eq)]
pub struct AccessRuleConfig {
    /// The name, for operators.
    pub name: String,
    /// What the rule does.
    pub action: AccessActionConfig,
    /// The methods, any where there are none.
    pub methods: Vec<String>,
    /// The host.
    pub host: Option<String>,
    /// What the path begins with.
    pub path_prefix: Option<String>,
    /// A pattern that matches in the path.
    pub path_matches: Option<String>,
    /// Headers with their values.
    pub headers: Vec<HeaderMatchConfig>,
    /// Whether there is a subject.
    pub subject_state: Option<SubjectStateConfig>,
    /// The subject.
    pub subject_is: Option<String>,
    /// A group of the subject.
    pub subject_in_group: Option<String>,
    /// A role of the subject.
    pub subject_has_role: Option<String>,
    /// A group of the pattern that captures the subject.
    pub subject_equals_capture: Option<String>,
    /// The least context class.
    pub acr_at_least: Option<String>,
    /// The context class that a step-up asks for.
    pub acr: Option<String>,
}

impl Default for AccessRuleConfig {
    fn default() -> (r: AccessRuleConfig)
        ensures
            r.name@.len() == 0,
            r.action is Deny,
            r.methods@.len() == 0,
            r.host is None,
            r.path_prefix is None,
            r.path_matches is None,
            r.headers@.len() == 0,
            r.subject_state is None,
            r.subject_is is None,
            r.subject_in_group is None,
            r.subject_has_role is None,
            r.subject_equals_capture is None,
            r.acr_at_least is None,
            r.acr is None,
    {
        AccessRuleConfig {
            name: String::new(),
            action: AccessActionConfig::Deny,
            methods: Vec::new(),
            host: None,
            path_prefix: None,
            path_matches: None,
            headers: Vec::new(),
            subject_state: None,
            subject_is: None,
            subject_in_group: None,
            subject_has_role: None,
            subject_equals_capture: None,
            acr_at_least: None,
            acr: None,
        }
    }
}

/// The dialect of the proxy. `ext_authz` is not among them: the check is served from a fixed
/// route, and that dialect carries the original path as the path of the check request.
#[derive(Debug, Clone, Copy, PartialEq, Eq, Structural)]
pub enum ProxyDialectConfig {
    ForwardAuth,
    NginxAuthRequest,
    Haproxy,
}

impl Default for ProxyDialectConfig {
    fn default() -> (r: ProxyDialectConfig)
        ensures
            r is ForwardAuth,
    {
        ProxyDialectConfig::ForwardAuth
    }
}

/// The configuration of the forward-auth surface.
#[derive(Debug, PartialEq, Eq)]
pub struct ForwardAuthConfig {
    /// Whether the surface is there at all.
    pub enabled: bool,
    /// The dialect of the proxy.
    pub dialect: ProxyDialectConfig,
    /// The rules, in order.
    pub rules: Vec<AccessRuleConfig>,
    /// For how many seconds a decision may be used again; not at all where it is left out.
    pub decision_cache_ttl_secs: Option<u64>,
}

impl Default for ForwardAuthConfig {
    fn default() -> (r: ForwardAuthConfig)
        ensures
            !r.enabled,
            r.dialect is ForwardAuth,
            r.rules@.len() == 0,
            r.decision_cache_ttl_secs is None,
    {
        ForwardAuthConfig {
            enabled: false,
            dialect: ProxyDialectConfig::ForwardAuth,
            rules: Vec::new(),
            decision_cache_ttl_secs: None,
        }
    }
}

// ---------------------------------------------------------------------------
// Refusals
// ---------------------------------------------------------------------------

/// Why groups are refused.
pub const WHY_NO_GROUPS: &'static str = "the forward-auth identity carries a subject and no group memberships, so this check would compare against an empty list: an `allow` rule would never fire and a `deny` rule would never bite, which is the direction that leaves a deployment believing it has a restriction it does not have";

/// Why roles are refused.
pub const WHY_NO_ROLES: &'static str = "the forward-auth identity carries no roles, for the same reason: the role sources in the store are organization scoped and a forward-auth request names no organization";

/// Why a configured rule could not be built.
#[derive(Debug, PartialEq, Eq)]
pub enum ConversionError {
    /// The rule reads something that this surface does not have.
    Unsupported { rule: String, field: &'static str, why: &'static str },
    /// The rule names a context class that no session presents here.
    UnknownAcr { rule: String, field: &'static str, value: String, known: Vec<&'static str> },
    /// The pattern of the rule does not compile.
    Pattern { rule: String, message: String },
}

/// The model of a [`ConversionError`].
#[verifier::ext_equal]
pub enum ConversionErrorView {
    Unsupported { rule: Seq<char>, field: Seq<char>, why: Seq<char> },
    UnknownAcr { rule: Seq<char>, field: Seq<char>, value: Seq<char>, known: Seq<Seq<char>> },
    Pattern { rule: Seq<char>, message: Seq<char> },
}

impl View for ConversionError {
    type V = ConversionErrorView;

    open spec fn view(&self) -> ConversionErrorView {
        match self {
            ConversionError::Unsupported { rule, field, why } => ConversionErrorView::Unsupported {
                rule: rule@,
                field: field@,
                why: why@,
            },
            ConversionError::UnknownAcr { rule, field, value, known } =>
                ConversionErrorView::UnknownAcr {
                rule: rule@,
                field: field@,
                value: value@,
                known: step_up::strs(known@),
            },
            ConversionError::Pattern { rule, message } => ConversionErrorView::Pattern {
                rule: rule@,
                message: message@,
            },
        }
    }
}

impl ConversionErrorView {
    /// What an operator reads.
    pub open spec fn message(self) -> Seq<char> {
        match self {
            ConversionErrorView::Unsupported { rule, field, why } => "forward-auth rule `"@ + rule
                + "` uses `"@ + field + "`, which this build cannot evaluate: "@ + why,
            ConversionErrorView::UnknownAcr { rule, field, value, known } => "forward-auth rule `"@
                + rule + "` sets `"@ + field + "` to `"@ + value
                + "`, which names no authentication level this deployment can reach: no session ever achieves it, so the rule would loop or would never fire. Known levels: "@
                + text::join(known, ", "@),
            ConversionErrorView::Pattern { rule, message } => "forward-auth rule `"@ + rule
                + "` has a path_matches that failed to compile here despite passing configuration validation: "@
                + message,
        }
    }
}

impl ConversionError {
    /// What an operator reads.
    pub fn message(&self) -> (r: String)
        ensures
            r@ == self@.message(),
    {
        let mut s: String = "forward-auth rule `".to_owned();
        match self {
            ConversionError::Unsupported { rule, field, why } => {
                s.append(rule.as_str());
                s.append("` uses `");
                s.append(field);
                s.append("`, which this build cannot evaluate: ");
                s.append(why);
            },
            ConversionError::UnknownAcr { rule, field, value, known } => {
                s.append(rule.as_str());
                s.append("` sets `");
                s.append(field);
                s.append("` to `");
                s.append(value.as_str());
                s.append(
                    "`, which names no authentication level this deployment can reach: no session ever achieves it, so the rule would loop or would never fire. Known levels: ",
                );
                let mut list: Vec<String> = Vec::new();
                let ghost all = step_up::strs(known@);
                let mut i: usize = 0;
                while i < known.len()
                    invariant
                        i <= known@.len(),
                        all == step_up::strs(known@),
                        text::texts(list@) == all.take(i as int),
                    decreases known@.len() - i,
                {
                    text::push_text(&mut list, known[i]);
                    assert(all.take(i + 1) =~= all.take(i as int).push(all[i as int]));
                    i = i + 1;
                }
                assert(all.take(all.len() as int) =~= all);
                let levels: String = text::joined(&list, ", ");
                s.append(levels.as_str());
            },
            ConversionError::Pattern { rule, message } => {
                s.append(rule.as_str());
                s.append(
                    "` has a path_matches that failed to compile here despite passing configuration validation: ",
                );
                s.append(message.as_str());
            },
        }
        s
    }
}

// ---------------------------------------------------------------------------
// Context classes
// ---------------------------------------------------------------------------

/// The rungs that a forward-auth request can present: all but that of a trusted device.
pub open spec fn observable() -> Seq<Seq<char>> {
    seq![
        step_up::ACR_PWD@,
        step_up::ACR_MFA@,
        step_up::ACR_PHR@,
        step_up::ACR_PHRH@,
        step_up::ACR_ATTESTED_PASSKEY@,
    ]
}

proof fn lemma_rungs_differ()
    ensures
        step_up::ACR_MFA_REMEMBERED@ != step_up::ACR_PWD@,
        step_up::ACR_MFA_REMEMBERED@ != step_up::ACR_MFA@,
        step_up::ACR_MFA_REMEMBERED@ != step_up::ACR_PHR@,
        step_up::ACR_MFA_REMEMBERED@ != step_up::ACR_PHRH@,
        step_up::ACR_MFA_REMEMBERED@ != step_up::ACR_ATTESTED_PASSKEY@,
{
    reveal_strlit("urn:ironauth:acr:pwd");
    reveal_strlit("urn:ironauth:acr:mfa_remembered");
    reveal_strlit("urn:ironauth:acr:mfa");
    reveal_strlit("phr");
    reveal_strlit("phrh");
    reveal_strlit("urn:ironauth:acr:attested_passkey");
    assert(step_up::ACR_MFA_REMEMBERED@.len() == 31);
    assert(step_up::ACR_PWD@.len() == 20);
    assert(step_up::ACR_MFA@.len() == 20);
    assert(step_up::ACR_PHR@.len() == 3);
    assert(step_up::ACR_PHRH@.len() == 4);
    assert(step_up::ACR_ATTESTED_PASSKEY@.len() == 33);
}

/// The rung that no forward-auth request presents. A trusted device stands in for a second factor
/// on one request only, and no session records it.
pub fn unobservable_acr() -> (r: &'static str)
    ensures
        r@ == step_up::ACR_MFA_REMEMBERED@,
{
    AuthMethod::TrustedDevice.acr()
}

/// The rungs that a forward-auth request can present.
pub fn observable_step_up_acrs() -> (r: Vec<&'static str>)
    ensures
        step_up::strs(r@) == observable(),
{
    let known = step_up::known_step_up_acrs();
    let hidden = unobservable_acr();
    let mut r: Vec<&'static str> = Vec::new();
    let mut i: usize = 0;
    proof {
        lemma_rungs_differ();
        assert(known@.len() == step_up::strs(known@).len());
    }
    while i < known.len()
        invariant
            i <= known@.len(),
            known@.len() == 6,
            hidden@ == step_up::ACR_MFA_REMEMBERED@,
            step_up::strs(known@) == step_up::ladder(),
            step_up::strs(r@) == observable().take(
                if i <= 1 {
                    i as int
                } else {
                    i - 1
                },
            ),
            step_up::ACR_MFA_REMEMBERED@ != step_up::ACR_PWD@,
            step_up::ACR_MFA_REMEMBERED@ != step_up::ACR_MFA@,
            step_up::ACR_MFA_REMEMBERED@ != step_up::ACR_PHR@,
            step_up::ACR_MFA_REMEMBERED@ != step_up::ACR_PHRH@,
            step_up::ACR_MFA_REMEMBERED@ != step_up::ACR_ATTESTED_PASSKEY@,
        decreases known@.len() - i,
    {
        let ghost before = r@;
        assert(known@[i as int]@ == step_up::strs(known@)[i as int]);
        if !text::same(known[i], hidden) {
            r.push(known[i]);
            assert(step_up::strs(r@) =~= step_up::strs(before).push(known@[i as int]@));
        }
        assert(step_up::strs(r@) =~= observable().take(
            if i == 0 {
                1
            } else {
                i as int
            },
        ));
        i = i + 1;
    }
    assert(observable().take(5) =~= observable());
    r
}

/// A name stands for a class that a forward-auth request can present.
pub open spec fn convertible(acr: Seq<char>) -> bool {
    let c = step_up::canonical(text::trim(acr));
    step_up::ladder().contains(c) && c != step_up::ACR_MFA_REMEMBERED@
}

/// The class that an operator's name stands for, or a refusal with the classes that can be named.
pub fn canonical_acr(rule: &str, field: &'static str, value: &str) -> (r: Result<
    String,
    ConversionError,
>)
    ensures
        match r {
            Ok(acr) => convertible(value@) && acr@ == step_up::canonical(text::trim(value@)),
            Err(e) => !convertible(value@) && e@ == (ConversionErrorView::UnknownAcr {
                rule: rule@,
                field: field@,
                value: value@,
                known: observable(),
            }),
        },
{
    let trimmed: String = text::trimmed(value);
    let acr: String = step_up::canonical_step_up_acr(trimmed.as_str());
    if !step_up::is_known_step_up_acr(trimmed.as_str()) || text::same(
        acr.as_str(),
        unobservable_acr(),
    ) {
        return Err(
            ConversionError::UnknownAcr {
                rule: rule.to_owned(),
                field,
                value: value.to_owned(),
                known: observable_step_up_acrs(),
            },
        );
    }
    Ok(acr)
}

// ---------------------------------------------------------------------------
// Rules
// ---------------------------------------------------------------------------

/// A criterion for an option that is set, and none for one that is not.
pub open spec fn of_option(
    o: Option<String>,
    f: spec_fn(Seq<char>) -> rules::CriterionView,
) -> Seq<rules::CriterionView> {
    match o {
        Some(s) => seq![f(s@)],
        None => Seq::empty(),
    }
}

/// The criterion for the methods, where any are named.
pub open spec fn of_methods(methods: Seq<String>) -> Seq<rules::CriterionView> {
    if methods.len() == 0 {
        Seq::empty()
    } else {
        seq![rules::CriterionView::Method(text::texts(methods))]
    }
}

/// The criteria for the headers.
pub open spec fn of_headers(headers: Seq<HeaderMatchConfig>) -> Seq<rules::CriterionView> {
    headers.map_values(
        |h: HeaderMatchConfig| rules::CriterionView::Header { name: h.name@, value: h.value@ },
    )
}

/// The criterion for the state of the subject.
pub open spec fn of_state(state: Option<SubjectStateConfig>) -> Seq<rules::CriterionView> {
    match state {
        Some(SubjectStateConfig::Authenticated) => seq![
            rules::CriterionView::Subject(rules::SubjectCheckView::Authenticated),
        ],
        Some(SubjectStateConfig::Anonymous) => seq![
            rules::CriterionView::Subject(rules::SubjectCheckView::Anonymous),
        ],
        None => Seq::empty(),
    }
}

/// The criterion for the pattern, where there is one.
pub open spec fn of_pattern(re: Option<regex::Regex>) -> Seq<rules::CriterionView> {
    match re {
        Some(re) => seq![rules::CriterionView::PathMatches(re)],
        None => Seq::empty(),
    }
}

/// The criteria of a configured rule that stand before the check against a capture, its pattern
/// being `re`.
pub open spec fn criteria_before_capture(cfg: AccessRuleConfig, re: Option<regex::Regex>) -> Seq<
    rules::CriterionView,
> {
    of_methods(cfg.methods@) + of_option(cfg.host, |s: Seq<char>| rules::CriterionView::Host(s))
        + of_option(cfg.path_prefix, |s: Seq<char>| rules::CriterionView::PathPrefix(s))
        + of_pattern(re) + of_headers(cfg.headers@) + of_state(cfg.subject_state) + of_option(
        cfg.subject_is,
        |s: Seq<char>| rules::CriterionView::Subject(rules::SubjectCheckView::Is(s)),
    )
}

/// The criteria of a configured rule, in the order in which they are evaluated, its pattern being
/// `re`.
pub open spec fn criteria_of(cfg: AccessRuleConfig, re: Option<regex::Regex>) -> Seq<
    rules::CriterionView,
> {
    criteria_before_capture(cfg, re) + of_option(
        cfg.subject_equals_capture,
        |s: Seq<char>| rules::CriterionView::Subject(rules::SubjectCheckView::EqualsCapture(s)),
    ) + of_option(
        cfg.acr_at_least,
        |s: Seq<char>| rules::CriterionView::AcrAtLeast(step_up::canonical(text::trim(s))),
    )
}

/// What the step-up of a configured rule names: nothing is as an empty name.
pub open spec fn step_up_name(cfg: AccessRuleConfig) -> Seq<char> {
    match cfg.acr {
        Some(s) => s@,
        None => Seq::empty(),
    }
}

/// What a configured rule does.
pub open spec fn action_of(cfg: AccessRuleConfig) -> rules::ActionView {
    match cfg.action {
        AccessActionConfig::Allow => rules::ActionView::Allow,
        AccessActionConfig::Deny => rules::ActionView::Deny,
        AccessActionConfig::StepUp => rules::ActionView::StepUp {
            acr: step_up::canonical(text::trim(step_up_name(cfg))),
        },
    }
}

/// The rule that a configured rule stands for, its pattern being `re`.
pub open spec fn rule_given(cfg: AccessRuleConfig, re: Option<regex::Regex>) -> rules::RuleView {
    rules::RuleView { name: cfg.name@, criteria: criteria_of(cfg, re), action: action_of(cfg) }
}

/// The pattern of a configured rule, where it compiles.
pub open spec fn pattern_of(cfg: AccessRuleConfig) -> Option<regex::Regex> {
    match cfg.path_matches {
        Some(p) => match pattern::pattern_compiled(p@) {
            Ok(re) => Some(re),
            Err(_) => None,
        },
        None => None,
    }
}

/// The message with which the pattern of a configured rule is refused, if it is.
pub open spec fn bad_pattern(cfg: AccessRuleConfig) -> Option<Seq<char>> {
    match cfg.path_matches {
        Some(p) => match pattern::pattern_compiled(p@) {
            Ok(_) => None,
            Err(message) => Some(message),
        },
        None => None,
    }
}

/// The rule that a configured rule stands for.
pub open spec fn rule_of(cfg: AccessRuleConfig) -> rules::RuleView {
    rule_given(cfg, pattern_of(cfg))
}

/// Why a configured rule cannot be built: the first of its problems.
pub open spec fn problem_of(cfg: AccessRuleConfig) -> Option<ConversionErrorView> {
    refusal_given(cfg, bad_pattern(cfg))
}

/// Why a configured rule cannot be built, where the pattern of the rule is refused with
/// `pattern_error`.
pub open spec fn refusal_given(cfg: AccessRuleConfig, pattern_error: Option<Seq<char>>) -> Option<
    ConversionErrorView,
> {
    if cfg.subject_in_group is Some {
        Some(
            ConversionErrorView::Unsupported {
                rule: cfg.name@,
                field: "subject_in_group"@,
                why: WHY_NO_GROUPS@,
            },
        )
    } else if cfg.subject_has_role is Some {
        Some(
            ConversionErrorView::Unsupported {
                rule: cfg.name@,
                field: "subject_has_role"@,
                why: WHY_NO_ROLES@,
            },
        )
    } else if pattern_error is Some {
        Some(ConversionErrorView::Pattern { rule: cfg.name@, message: pattern_error->0 })
    } else if cfg.acr_at_least matches Some(floor) && !convertible(floor@) {
        Some(
            ConversionErrorView::UnknownAcr {
                rule: cfg.name@,
                field: "acr_at_least"@,
                value: cfg.acr_at_least->0@,
                known: observable(),
            },
        )
    } else if cfg.action is StepUp && !convertible(step_up_name(cfg)) {
        Some(
            ConversionErrorView::UnknownAcr {
                rule: cfg.name@,
                field: "acr"@,
                value: step_up_name(cfg),
                known: observable(),
            },
        )
    } else {
        None
    }
}

/// Adds a criterion to a list.
fn add(criteria: &mut Vec<Criterion>, c: Criterion)
    ensures
        rules::criteria_views(final(criteria)@) == rules::criteria_views(old(criteria)@).push(c@),
{
    let ghost before = criteria@;
    criteria.push(c);
    assert(rules::criteria_views(criteria@) =~= rules::criteria_views(before).push(c@));
}

/// The criteria of a configured rule that come before its pattern.
fn criteria_before_pattern(cfg: &AccessRuleConfig) -> (r: Vec<Criterion>)
    ensures
        rules::criteria_views(r@) == of_methods(cfg.methods@) + of_option(
            cfg.host,
            |s: Seq<char>| rules::CriterionView::Host(s),
        ) + of_option(cfg.path_prefix, |s: Seq<char>| rules::CriterionView::PathPrefix(s)),
{
    let mut criteria: Vec<Criterion> = Vec::new();
    assert(rules::criteria_views(criteria@) =~= Seq::empty());
    if cfg.methods.len() > 0 {
        self::add(&mut criteria, Criterion::Method(text::clone_texts(&cfg.methods)));
    }
    let ghost a = of_methods(cfg.methods@);
    assert(rules::criteria_views(criteria@) =~= a);
    match &cfg.host {
        Some(host) => self::add(&mut criteria, Criterion::Host(host.clone())),
        None => {},
    }
    let ghost b = a + of_option(cfg.host, |s: Seq<char>| rules::CriterionView::Host(s));
    assert(rules::criteria_views(criteria@) =~= b);
    match &cfg.path_prefix {
        Some(prefix) => self::add(&mut criteria, Criterion::PathPrefix(prefix.clone())),
        None => {},
    }
    assert(rules::criteria_views(criteria@) =~= b + of_option(
        cfg.path_prefix,
        |s: Seq<char>| rules::CriterionView::PathPrefix(s),
    ));
    criteria
}

/// Adds the criteria of a configured rule that come after its pattern and before the check
/// against a capture.
fn add_after_pattern(criteria: &mut Vec<Criterion>, cfg: &AccessRuleConfig)
    ensures
        rules::criteria_views(final(criteria)@) == rules::criteria_views(old(criteria)@)
            + of_headers(cfg.headers@) + of_state(cfg.subject_state) + of_option(
            cfg.subject_is,
            |s: Seq<char>| rules::CriterionView::Subject(rules::SubjectCheckView::Is(s)),
        ),
{
    let ghost given = rules::criteria_views(criteria@);
    let ghost headers = of_headers(cfg.headers@);
    let mut i: usize = 0;
    assert(given + headers.take(0) =~= given);
    while i < cfg.headers.len()
        invariant
            i <= cfg.headers@.len(),
            headers == of_headers(cfg.headers@),
            rules::criteria_views(criteria@) == given + headers.take(i as int),
        decreases cfg.headers@.len() - i,
    {
        self::add(
            criteria,
            Criterion::Header {
                name: cfg.headers[i].name.clone(),
                value: cfg.headers[i].value.clone(),
            },
        );
        assert(given + headers.take(i + 1) =~= (given + headers.take(i as int)).push(
            headers[i as int],
        ));
        i = i + 1;
    }
    assert(headers.take(headers.len() as int) =~= headers);
    match cfg.subject_state {
        Some(SubjectStateConfig::Authenticated) => self::add(
            criteria,
            Criterion::Subject(SubjectCheck::Authenticated),
        ),
        Some(SubjectStateConfig::Anonymous) => self::add(
            criteria,
            Criterion::Subject(SubjectCheck::Anonymous),
        ),
        None => {},
    }
    let ghost b = given + headers + of_state(cfg.subject_state);
    assert(rules::criteria_views(criteria@) =~= b);
    match &cfg.subject_is {
        Some(subject) => self::add(criteria, Criterion::Subject(SubjectCheck::Is(subject.clone()))),
        None => {},
    }
    assert(rules::criteria_views(criteria@) =~= b + of_option(
        cfg.subject_is,
        |s: Seq<char>| rules::CriterionView::Subject(rules::SubjectCheckView::Is(s)),
    ));
}

/// A pattern that compiled.
pub open spec fn compiled_pattern(compiled: Option<Result<regex::Regex, String>>) -> Option<
    regex::Regex,
> {
    match compiled {
        Some(Ok(re)) => Some(re),
        _ => None,
    }
}

/// The message of a pattern that did not compile.
pub open spec fn refused_pattern(compiled: Option<Result<regex::Regex, String>>) -> Option<
    Seq<char>,
> {
    match compiled {
        Some(Err(message)) => Some(message@),
        _ => None,
    }
}

/// Builds one rule from what its pattern was compiled to, where it has one.
pub fn rule_with_pattern(
    cfg: &AccessRuleConfig,
    compiled: Option<Result<regex::Regex, String>>,
) -> (r: Result<Rule, ConversionError>)
    ensures
        match r {
            Ok(rule) => {
                &&& refusal_given(*cfg, refused_pattern(compiled)) is None
                &&& rule@ == rule_given(*cfg, compiled_pattern(compiled))
            },
            Err(e) => refusal_given(*cfg, refused_pattern(compiled)) == Some(e@),
        },
{
    if cfg.subject_in_group.is_some() {
        return Err(
            ConversionError::Unsupported {
                rule: cfg.name.clone(),
                field: "subject_in_group",
                why: WHY_NO_GROUPS,
            },
        );
    }
    if cfg.subject_has_role.is_some() {
        return Err(
            ConversionError::Unsupported {
                rule: cfg.name.clone(),
                field: "subject_has_role",
                why: WHY_NO_ROLES,
            },
        );
    }
    let mut criteria: Vec<Criterion> = criteria_before_pattern(cfg);
    let ghost a = rules::criteria_views(criteria@);
    let ghost re = compiled_pattern(compiled);
    match compiled {
        Some(Ok(re)) => self::add(&mut criteria, Criterion::PathMatches(re)),
        Some(Err(message)) => {
            return Err(ConversionError::Pattern { rule: cfg.name.clone(), message });
        },
        None => {},
    }
    assert(rules::criteria_views(criteria@) =~= a + of_pattern(re));
    add_after_pattern(&mut criteria, cfg);
    let ghost b = criteria_before_capture(*cfg, re);
    assert(rules::criteria_views(criteria@) =~= b);
    match &cfg.subject_equals_capture {
        Some(capture) => self::add(
            &mut criteria,
            Criterion::Subject(SubjectCheck::EqualsCapture(capture.clone())),
        ),
        None => {},
    }
    let ghost c = b + of_option(
        cfg.subject_equals_capture,
        |s: Seq<char>| rules::CriterionView::Subject(rules::SubjectCheckView::EqualsCapture(s)),
    );
    assert(rules::criteria_views(criteria@) =~= c);
    match &cfg.acr_at_least {
        Some(floor) => match canonical_acr(cfg.name.as_str(), "acr_at_least", floor.as_str()) {
            Ok(acr) => self::add(&mut criteria, Criterion::AcrAtLeast(acr)),
            Err(e) => return Err(e),
        },
        None => {},
    }
    assert(rules::criteria_views(criteria@) =~= criteria_of(*cfg, re));
    let action: Action = match cfg.action {
        AccessActionConfig::Allow => Action::Allow,
        AccessActionConfig::Deny => Action::Deny,
        AccessActionConfig::StepUp => {
            let name: String = match &cfg.acr {
                Some(acr) => acr.clone(),
                None => String::new(),
            };
            match canonical_acr(cfg.name.as_str(), "acr", name.as_str()) {
                Ok(acr) => Action::StepUp { acr },
                Err(e) => return Err(e),
            }
        },
    };
    Ok(Rule { name: cfg.name.clone(), criteria, action })
}

/// Builds one rule, or refuses what this surface cannot evaluate.
pub fn rule_from_config(cfg: &AccessRuleConfig) -> (r: Result<Rule, ConversionError>)
    ensures
        match r {
            Ok(rule) => problem_of(*cfg) is None && rule@ == rule_of(*cfg),
            Err(e) => problem_of(*cfg) == Some(e@),
        },
{
    let compiled: Option<Result<regex::Regex, String>> = match &cfg.path_matches {
        Some(p) => Some(pattern::compile(p.as_str())),
        None => None,
    };
    rule_with_pattern(cfg, compiled)
}

/// Why a list of configured rules cannot be built: the problem of the first that has one.
pub open spec fn first_problem(list: Seq<AccessRuleConfig>) -> Option<ConversionErrorView>
    decreases list.len(),
{
    if list.len() == 0 {
        None
    } else if problem_of(list[0]) is Some {
        problem_of(list[0])
    } else {
        first_problem(list.skip(1))
    }
}

/// The rules are those that the configuration stands for, in the same order.
pub open spec fn built_from(built: Seq<Rule>, list: Seq<AccessRuleConfig>) -> bool {
    &&& built.len() == list.len()
    &&& forall|i: int| 0 <= i < list.len() ==> (#[trigger] built[i])@ == rule_of(list[i])
}

/// The order in which a rule set ranks classes: the configured one, and the ladder where none is
/// configured.
pub open spec fn order_for(acr_order: Seq<String>) -> Seq<Seq<char>> {
    if acr_order.len() == 0 {
        step_up::ladder()
    } else {
        text::texts(acr_order)
    }
}

/// Builds the rule set of a deployment. The order of the rules is the policy, so it is kept.
pub fn rule_set_from_config(cfg: &ForwardAuthConfig, acr_order: &[String]) -> (r: Result<
    RuleSet,
    ConversionError,
>)
    ensures
        match r {
            Ok(set) => {
                &&& first_problem(cfg.rules@) is None
                &&& built_from(set.spec_rules(), cfg.rules@)
                &&& set.order() == order_for(acr_order@)
            },
            Err(e) => first_problem(cfg.rules@) == Some(e@),
        },
{
    let ghost all = cfg.rules@;
    let mut built: Vec<Rule> = Vec::new();
    let mut i: usize = 0;
    assert(all.skip(0) =~= all);
    while i < cfg.rules.len()
        invariant
            i <= cfg.rules@.len(),
            all == cfg.rules@,
            built_from(built@, all.take(i as int)),
            first_problem(all) == first_problem(all.skip(i as int)),
        decreases cfg.rules@.len() - i,
    {
        assert(all.skip(i as int)[0] == all[i as int]);
        match rule_from_config(&cfg.rules[i]) {
            Ok(rule) => built.push(rule),
            Err(e) => return Err(e),
        }
        assert(all.skip(i as int).skip(1) =~= all.skip(i + 1));
        assert(all.take(i + 1) =~= all.take(i as int).push(all[i as int]));
        i = i + 1;
    }
    assert(all.take(all.len() as int) =~= all);
    let set = RuleSet::new(built);
    if acr_order.len() == 0 {
        return Ok(set);
    }
    let mut order: Vec<String> = Vec::new();
    let mut k: usize = 0;
    while k < acr_order.len()
        invariant
            k <= acr_order@.len(),
            order@ == acr_order@.take(k as int),
        decreases acr_order@.len() - k,
    {
        assert(acr_order@.take(k + 1) =~= acr_order@.take(k as int).push(acr_order@[k as int]));
        order.push(acr_order[k].clone());
        k = k + 1;
    }
    assert(acr_order@.take(acr_order@.len() as int) =~= acr_order@);
    Ok(set.with_acr_order(order))
}

/// Builds the rule set of a deployment, to be shared by everything that is gated by it.
pub fn access_rules_from_config(cfg: &ForwardAuthConfig, acr_order: &[String]) -> (r: Result<
    Arc<RuleSet>,
    ConversionError,
>)
    ensures
        match r {
            Ok(set) => {
                &&& first_problem(cfg.rules@) is None
                &&& built_from(set.spec_rules(), cfg.rules@)
                &&& set.order() == order_for(acr_order@)
            },
            Err(e) => first_problem(cfg.rules@) == Some(e@),
        },
{
    match rule_set_from_config(cfg, acr_order) {
        Ok(set) => Ok(Arc::new(set)),
        Err(e) => Err(e),
    }
}

// ---------------------------------------------------------------------------
// The surface
// ---------------------------------------------------------------------------

/// The forward-auth surface of a deployment: the rules, and the dialect in which check requests
/// come.
pub struct ForwardAuthRuntime {
    forward_auth: ForwardAuth,
    dialect: Dialect,
    decision_cache_ttl_secs: Option<u64>,
}

/// The dialect that a configured one stands for.
pub open spec fn dialect_of(cfg: ProxyDialectConfig) -> Dialect {
    match cfg {
        ProxyDialectConfig::ForwardAuth => Dialect::ForwardAuth,
        ProxyDialectConfig::NginxAuthRequest => Dialect::NginxAuthRequest,
        ProxyDialectConfig::Haproxy => Dialect::Haproxy,
    }
}

impl ForwardAuthRuntime {
    /// The rule set of the surface.
    pub closed spec fn set(&self) -> RuleSet {
        self.forward_auth.set()
    }

    /// The dialect of the surface.
    pub closed spec fn spec_dialect(&self) -> Dialect {
        self.dialect
    }

    /// For how many seconds a decision may be used again.
    pub closed spec fn spec_reuse(&self) -> Option<u64> {
        self.decision_cache_ttl_secs
    }

    /// The surface of a configuration, or none where it is not enabled, whatever its rules are.
    pub fn from_config(cfg: &ForwardAuthConfig, acr_order: &[String]) -> (r: Result<
        Option<ForwardAuthRuntime>,
        ConversionError,
    >)
        ensures
            match r {
                Ok(Some(runtime)) => {
                    &&& first_problem(cfg.rules@) is None
                    &&& cfg.enabled
                    &&& built_from(runtime.set().spec_rules(), cfg.rules@)
                    &&& runtime.set().order() == order_for(acr_order@)
                    &&& runtime.spec_dialect() == dialect_of(cfg.dialect)
                    &&& runtime.spec_reuse() == cfg.decision_cache_ttl_secs
                },
                Ok(None) => !cfg.enabled,
                Err(e) => cfg.enabled && first_problem(cfg.rules@) == Some(e@),
            },
    {
        if !cfg.enabled {
            return Ok(None);
        }
        match access_rules_from_config(cfg, acr_order) {
            Ok(rules) => ForwardAuthRuntime::from_rules(cfg, rules),
            Err(e) => Err(e),
        }
    }

    /// The same, over rules that were built before.
    pub fn from_rules(cfg: &ForwardAuthConfig, rules: Arc<RuleSet>) -> (r: Result<
        Option<ForwardAuthRuntime>,
        ConversionError,
    >)
        ensures
            match r {
                Ok(Some(runtime)) => {
                    &&& cfg.enabled
                    &&& runtime.set() == *rules
                    &&& runtime.spec_dialect() == dialect_of(cfg.dialect)
                    &&& runtime.spec_reuse() == cfg.decision_cache_ttl_secs
                },
                Ok(None) => !cfg.enabled,
                Err(_) => false,
            },
    {
        if !cfg.enabled {
            return Ok(None);
        }
        let dialect: Dialect = match cfg.dialect {
            ProxyDialectConfig::ForwardAuth => Dialect::ForwardAuth,
            ProxyDialectConfig::NginxAuthRequest => Dialect::NginxAuthRequest,
            ProxyDialectConfig::Haproxy => Dialect::Haproxy,
        };
        Ok(
            Some(
                ForwardAuthRuntime {
                    forward_auth: ForwardAuth::over(rules),
                    dialect,
                    decision_cache_ttl_secs: cfg.decision_cache_ttl_secs,
                },
            ),
        )
    }

    /// For how many seconds a decision may be used again. Where it is left out, every request is
    /// evaluated.
    pub fn decision_cache_ttl_secs(&self) -> (r: Option<u64>)
        ensures
            r == self.spec_reuse(),
    {
        self.decision_cache_ttl_secs
    }

    /// The surface over the rules.
    pub fn forward_auth(&self) -> (r: &ForwardAuth)
        ensures
            r.set() == self.set(),
    {
        &self.forward_auth
    }

    /// The dialect in which check requests come.
    pub fn dialect(&self) -> (r: Dialect)
        ensures
            r == self.spec_dialect(),
    {
        self.dialect
    }

    /// What every rule says of a check request, for who asks why. Nothing is decided by it.
    pub fn explain(&self, facts: &RequestFacts) -> (r: Explanation)
        ensures
            rules::explains(
                r.answers@,
                self.set().spec_rules(),
                forward_auth::sanitised(facts@),
                self.set().order(),
            ),
    {
        self.forward_auth.explain(facts)
    }

    /// Decides a check request, from the rules and from nothing that was decided before.
    pub fn evaluate(&self, facts: RequestFacts, identity: Option<&Identity>) -> (r:
        ForwardAuthOutcome)
        ensures
            r.decision@ == forward_auth::surface_decision(self.set(), facts@, identity),
            crate::reply::pairs(r.upstream_headers@) == forward_auth::surface_headers(
                self.set(),
                facts@,
                identity,
            ),
            forward_auth::lists_reserved(text::texts(r.must_delete@), facts@.headers),
            forward_auth::opt_error(r.identity_rejected) == forward_auth::identity_problem(
                identity,
            ),
    {
        self.forward_auth.evaluate(facts, identity)
    }
}

// ---------------------------------------------------------------------------
// Rate limits
// ---------------------------------------------------------------------------

/// A layer at which requests are limited.
#[derive(Debug, Clone, Copy, PartialEq, Eq, Structural)]
pub enum RateLayer {
    PerIp,
    PerTenant,
    PerEnvironment,
    PerClient,
}

/// The configured limits, of whatever kind; a layer without one is not limited.
pub struct RateLimitConfig<L> {
    pub per_ip: Option<L>,
    pub per_tenant: Option<L>,
    pub per_environment: Option<L>,
    pub per_client: Option<L>,
}

/// A layer with its limit, where it has one.
pub open spec fn limited<L>(layer: RateLayer, limit: Option<L>) -> Seq<(RateLayer, L)> {
    match limit {
        Some(l) => seq![(layer, l)],
        None => Seq::empty(),
    }
}

/// The layers that are limited, each with its own limit, in the order in which they are tried.
/// None is where nothing is configured.
pub fn configured_layers<L>(cfg: RateLimitConfig<L>) -> (r: Vec<(RateLayer, L)>)
    ensures
        r@ == limited(RateLayer::PerIp, cfg.per_ip) + limited(RateLayer::PerTenant, cfg.per_tenant)
            + limited(RateLayer::PerEnvironment, cfg.per_environment) + limited(
            RateLayer::PerClient,
            cfg.per_client,
        ),
{
    let mut r: Vec<(RateLayer, L)> = Vec::new();
    match cfg.per_ip {
        Some(l) => r.push((RateLayer::PerIp, l)),
        None => {},
    }
    assert(r@ =~= limited(RateLayer::PerIp, cfg.per_ip));
    match cfg.per_tenant {
        Some(l) => r.push((RateLayer::PerTenant, l)),
        None => {},
    }
    assert(r@ =~= limited(RateLayer::PerIp, cfg.per_ip) + limited(
        RateLayer::PerTenant,
        cfg.per_tenant,
    ));
    match cfg.per_environment {
        Some(l) => r.push((RateLayer::PerEnvironment, l)),
        None => {},
    }
    assert(r@ =~= limited(RateLayer::PerIp, cfg.per_ip) + limited(
        RateLayer::PerTenant,
        cfg.per_tenant,
    ) + limited(RateLayer::PerEnvironment, cfg.per_environment));
    match cfg.per_client {
        Some(l) => r.push((RateLayer::PerClient, l)),
        None => {},
    }
    assert(r@ =~= limited(RateLayer::PerIp, cfg.per_ip) + limited(
        RateLayer::PerTenant,
        cfg.per_tenant,
    ) + limited(RateLayer::PerEnvironment, cfg.per_environment) + limited(
        RateLayer::PerClient,
        cfg.per_client,
    ));
    r
}

// ---------------------------------------------------------------------------
// Laws
// ---------------------------------------------------------------------------

/// A check against a capture stands behind the pattern that binds it.
pub proof fn law_the_pattern_comes_before_its_capture(
    cfg: AccessRuleConfig,
    re: Option<regex::Regex>,
    i: int,
    k: int,
)
    requires
        0 <= i < criteria_of(cfg, re).len(),
        0 <= k < criteria_of(cfg, re).len(),
        criteria_of(cfg, re)[i] is PathMatches,
        criteria_of(cfg, re)[k] matches rules::CriterionView::Subject(check) && check is EqualsCapture,
    ensures
        i < k,
{
    let a = criteria_before_capture(cfg, re);
    let capture = of_option(
        cfg.subject_equals_capture,
        |s: Seq<char>| rules::CriterionView::Subject(rules::SubjectCheckView::EqualsCapture(s)),
    );
    assert(forall|n: int|
        0 <= n < a.len() ==> !((#[trigger] a[n]) matches rules::CriterionView::Subject(check)
            && check is EqualsCapture)) by {
        assert(forall|n: int|
            0 <= n < of_headers(cfg.headers@).len() ==> (#[trigger] of_headers(
                cfg.headers@,
            )[n]) is Header);
    }
    if k < a.len() {
        assert(criteria_of(cfg, re)[k] == a[k]);
    }
    if i >= a.len() {
        assert(!(criteria_of(cfg, re)[i] is PathMatches));
    }
}

/// No rule that was built asks for a class that a forward-auth request cannot present: neither in
/// a step-up nor as a floor.
pub proof fn law_a_built_rule_can_be_satisfied(cfg: AccessRuleConfig)
    requires
        problem_of(cfg) is None,
    ensures
        action_of(cfg) matches rules::ActionView::StepUp { acr } ==> step_up::ladder().contains(acr)
            && acr != step_up::ACR_MFA_REMEMBERED@,
        cfg.acr_at_least matches Some(floor) ==> convertible(floor@),
        cfg.subject_in_group is None,
        cfg.subject_has_role is None,
{
}

/// Building is all or nothing: where one rule of a list is refused, no rule set comes of it.
pub proof fn law_one_refused_rule_refuses_the_list(list: Seq<AccessRuleConfig>, i: int)
    requires
        0 <= i < list.len(),
        problem_of(list[i]) is Some,
    ensures
        first_problem(list) is Some,
    decreases list.len(),
{
    if problem_of(list[0]) is None {
        assert(list.skip(1)[i - 1] == list[i]);
        law_one_refused_rule_refuses_the_list(list.skip(1), i - 1);
    }
}

proof fn lemma_no_pattern_between(c: Seq<Criterion>, from: int, to: int, name: Seq<char>, path: Seq<char>)
    requires
        0 <= from <= to <= c.len(),
        forall|k: int| from <= k < to ==> !(#[trigger] c[k] is PathMatches),
    ensures
        rules::bound_before(c, to, name, path) == rules::bound_before(c, from, name, path),
    decreases to - from,
{
    if from < to {
        assert(!(c[to - 1] is PathMatches));
        lemma_no_pattern_between(c, from, to - 1, name, path);
    }
}

/// The criteria from place `o` on are these.
spec fn laid_out(c: Seq<Criterion>, o: int, part: Seq<rules::CriterionView>) -> bool {
    &&& 0 <= o
    &&& o + part.len() <= c.len()
    &&& forall|i: int| 0 <= i < part.len() ==> c[o + i]@ == #[trigger] part[i]
}

/// A request meets the `n` criteria from place `o` on.
spec fn met_from(c: Seq<Criterion>, o: int, n: int, f: rules::FactsView, order: Seq<Seq<char>>) -> bool {
    forall|i: int| o <= i < o + n ==> #[trigger] rules::meets_at(c, i, f, order)
}

proof fn lemma_laid_out_apart(c: Seq<Criterion>, a: Seq<rules::CriterionView>, b: Seq<rules::CriterionView>)
    requires
        laid_out(c, 0, a + b),
    ensures
        laid_out(c, 0, a),
        laid_out(c, a.len() as int, b),
{
    assert forall|i: int| 0 <= i < a.len() implies c[0 + i]@ == #[trigger] a[i] by {
        assert((a + b)[i] == a[i]);
    }
    assert forall|i: int| 0 <= i < b.len() implies c[a.len() + i]@ == #[trigger] b[i] by {
        assert((a + b)[a.len() + i] == b[i]);
    }
}

proof fn lemma_methods_met(
    c: Seq<Criterion>,
    o: int,
    methods: Seq<String>,
    f: rules::FactsView,
    order: Seq<Seq<char>>,
)
    requires
        laid_out(c, o, of_methods(methods)),
    ensures
        met_from(c, o, of_methods(methods).len() as int, f, order) <==> (methods.len() == 0
            || exists|i: int| 0 <= i < methods.len() && #[trigger] methods[i]@ == f.method),
{
    let part = of_methods(methods);
    if methods.len() > 0 {
        assert(c[o + 0]@ == part[0]);
        let all = text::texts(methods);
        assert(rules::meets_at(c, o, f, order) == all.contains(f.method));
        if all.contains(f.method) {
            let i = choose|i: int| 0 <= i < all.len() && all[i] == f.method;
            assert(methods[i]@ == f.method);
        }
        if exists|i: int| 0 <= i < methods.len() && #[trigger] methods[i]@ == f.method {
            let i = choose|i: int| 0 <= i < methods.len() && #[trigger] methods[i]@ == f.method;
            assert(all[i] == f.method);
        }
    }
}

proof fn lemma_one_met(
    c: Seq<Criterion>,
    o: int,
    part: Seq<rules::CriterionView>,
    f: rules::FactsView,
    order: Seq<Seq<char>>,
)
    requires
        laid_out(c, o, part),
        part.len() <= 1,
    ensures
        part.len() == 0 ==> met_from(c, o, part.len() as int, f, order),
        part.len() == 1 ==> c[o]@ == part[0] && (met_from(c, o, part.len() as int, f, order)
            <==> rules::meets_at(c, o, f, order)),
{
    if part.len() == 1 {
        assert(c[o + 0]@ == part[0]);
    }
}

proof fn lemma_headers_met(
    c: Seq<Criterion>,
    o: int,
    headers: Seq<HeaderMatchConfig>,
    f: rules::FactsView,
    order: Seq<Seq<char>>,
)
    requires
        laid_out(c, o, of_headers(headers)),
    ensures
        met_from(c, o, of_headers(headers).len() as int, f, order) <==> (forall|i: int|
            0 <= i < headers.len() ==> f.headers.contains_key((#[trigger] headers[i]).name@)
                && f.headers[headers[i].name@] == headers[i].value@),
{
    let part = of_headers(headers);
    assert forall|i: int| 0 <= i < headers.len() implies rules::meets_at(c, o + i, f, order) == (
    f.headers.contains_key((#[trigger] headers[i]).name@) && f.headers[headers[i].name@]
        == headers[i].value@) by {
        assert(c[o + i]@ == part[i]);
    }
    if met_from(c, o, part.len() as int, f, order) {
        assert forall|i: int| 0 <= i < headers.len() implies f.headers.contains_key(
            (#[trigger] headers[i]).name@,
        ) && f.headers[headers[i].name@] == headers[i].value@ by {
            assert(rules::meets_at(c, o + i, f, order));
        }
    }
    if forall|i: int|
        0 <= i < headers.len() ==> f.headers.contains_key((#[trigger] headers[i]).name@)
            && f.headers[headers[i].name@] == headers[i].value@ {
        assert forall|i: int| o <= i < o + part.len() implies #[trigger] rules::meets_at(
            c,
            i,
            f,
            order,
        ) by {
            let k = i - o;
            assert(f.headers.contains_key(headers[k].name@));
            assert(o + k == i);
        }
    }
}

proof fn lemma_host_met(
    c: Seq<Criterion>,
    o: int,
    host: Option<String>,
    f: rules::FactsView,
    order: Seq<Seq<char>>,
)
    requires
        laid_out(c, o, of_option(host, |s: Seq<char>| rules::CriterionView::Host(s))),
    ensures
        met_from(c, o, of_option(host, |s: Seq<char>| rules::CriterionView::Host(s)).len() as int, f, order) <==> (
        host matches Some(t) ==> t@ == f.host),
{
    lemma_one_met(c, o, of_option(host, |s: Seq<char>| rules::CriterionView::Host(s)), f, order);
}

proof fn lemma_prefix_met(
    c: Seq<Criterion>,
    o: int,
    prefix: Option<String>,
    f: rules::FactsView,
    order: Seq<Seq<char>>,
)
    requires
        laid_out(c, o, of_option(prefix, |s: Seq<char>| rules::CriterionView::PathPrefix(s))),
    ensures
        met_from(c, o, of_option(prefix, |s: Seq<char>| rules::CriterionView::PathPrefix(s)).len() as int, f, order) <==> (
        prefix matches Some(t) ==> t@.is_prefix_of(f.path)),
{
    lemma_one_met(c, o, of_option(prefix, |s: Seq<char>| rules::CriterionView::PathPrefix(s)), f, order);
}

proof fn lemma_subject_met(
    c: Seq<Criterion>,
    o: int,
    subject: Option<String>,
    f: rules::FactsView,
    order: Seq<Seq<char>>,
)
    requires
        laid_out(c, o, of_option(subject, |s: Seq<char>| rules::CriterionView::Subject(rules::SubjectCheckView::Is(s)))),
    ensures
        met_from(c, o, of_option(subject, |s: Seq<char>| rules::CriterionView::Subject(rules::SubjectCheckView::Is(s))).len() as int, f, order) <==> (
        subject matches Some(t) ==> f.subject == Some(t@)),
{
    lemma_one_met(c, o, of_option(subject, |s: Seq<char>| rules::CriterionView::Subject(rules::SubjectCheckView::Is(s))), f, order);
}

proof fn lemma_capture_met(
    c: Seq<Criterion>,
    o: int,
    name: Option<String>,
    f: rules::FactsView,
    order: Seq<Seq<char>>,
)
    requires
        laid_out(c, o, of_option(name, |s: Seq<char>| rules::CriterionView::Subject(rules::SubjectCheckView::EqualsCapture(s)))),
    ensures
        met_from(c, o, of_option(name, |s: Seq<char>| rules::CriterionView::Subject(rules::SubjectCheckView::EqualsCapture(s))).len() as int, f, order) <==> (
        name matches Some(t) ==> f.subject is Some && rules::bound_before(c, o, t@, f.path) == f.subject),
{
    lemma_one_met(c, o, of_option(name, |s: Seq<char>| rules::CriterionView::Subject(rules::SubjectCheckView::EqualsCapture(s))), f, order);
}

proof fn lemma_class_met(
    c: Seq<Criterion>,
    o: int,
    class: Option<String>,
    f: rules::FactsView,
    order: Seq<Seq<char>>,
)
    requires
        laid_out(c, o, of_option(class, |s: Seq<char>| rules::CriterionView::AcrAtLeast(step_up::canonical(text::trim(s))))),
    ensures
        met_from(c, o, of_option(class, |s: Seq<char>| rules::CriterionView::AcrAtLeast(step_up::canonical(text::trim(s)))).len() as int, f, order) <==> (
        class matches Some(t) ==> step_up::meets(order, f.acr, step_up::canonical(text::trim(t@)))),
{
    lemma_one_met(c, o, of_option(class, |s: Seq<char>| rules::CriterionView::AcrAtLeast(step_up::canonical(text::trim(s)))), f, order);
}

proof fn lemma_pattern_met(
    c: Seq<Criterion>,
    o: int,
    re: Option<regex::Regex>,
    f: rules::FactsView,
    order: Seq<Seq<char>>,
)
    requires
        laid_out(c, o, of_pattern(re)),
    ensures
        met_from(c, o, of_pattern(re).len() as int, f, order) <==> (re matches Some(r)
            ==> pattern::pattern_matches(r, f.path)),
{
    lemma_one_met(c, o, of_pattern(re), f, order);
}

proof fn lemma_state_met(
    c: Seq<Criterion>,
    o: int,
    state: Option<SubjectStateConfig>,
    f: rules::FactsView,
    order: Seq<Seq<char>>,
)
    requires
        laid_out(c, o, of_state(state)),
    ensures
        met_from(c, o, of_state(state).len() as int, f, order) <==> {
            &&& state == Some(SubjectStateConfig::Authenticated) ==> f.subject is Some
            &&& state == Some(SubjectStateConfig::Anonymous) ==> f.subject is None
        },
{
    lemma_one_met(c, o, of_state(state), f, order);
}

/// A configured rule means what it says. It matches a request with one of its methods, to its host,
/// under its prefix, in whose path its pattern matches, with all of its headers, of a caller in the
/// state that it asks for, who is the subject that it names, whom its pattern captured, and whose
/// session is of its class or a stronger one; what it leaves out it does not ask for. It does what
/// its action says, under its name.
pub proof fn law_a_configured_rule_means_what_it_says(
    cfg: AccessRuleConfig,
    rule: Rule,
    f: rules::FactsView,
    order: Seq<Seq<char>>,
)
    requires
        problem_of(cfg) is None,
        rule@ == rule_of(cfg),
    ensures
        rule.name@ == cfg.name@,
        cfg.action is Allow ==> rule.action is Allow,
        cfg.action is Deny ==> rule.action is Deny,
        cfg.action is StepUp ==> (rule.action matches Action::StepUp { acr } && (cfg.acr matches Some(
            named,
        ) ==> acr@ == step_up::canonical(text::trim(named@)))),
        (rules::decision(seq![rule], f, order).matched is Some) <==> {
            &&& cfg.methods@.len() == 0 || exists|i: int|
                0 <= i < cfg.methods@.len() && #[trigger] cfg.methods@[i]@ == f.method
            &&& cfg.host matches Some(host) ==> host@ == f.host
            &&& cfg.path_prefix matches Some(prefix) ==> prefix@.is_prefix_of(f.path)
            &&& cfg.path_matches matches Some(p) ==> (pattern::pattern_compiled(p@) matches Ok(re)
                && pattern::pattern_matches(re, f.path))
            &&& forall|i: int|
                0 <= i < cfg.headers@.len() ==> f.headers.contains_key(
                    (#[trigger] cfg.headers@[i]).name@,
                ) && f.headers[cfg.headers@[i].name@] == cfg.headers@[i].value@
            &&& cfg.subject_state == Some(SubjectStateConfig::Authenticated) ==> f.subject is Some
            &&& cfg.subject_state == Some(SubjectStateConfig::Anonymous) ==> f.subject is None
            &&& cfg.subject_is matches Some(s) ==> f.subject == Some(s@)
            &&& cfg.subject_equals_capture matches Some(c) ==> (f.subject is Some && (
            cfg.path_matches matches Some(p) && (pattern::pattern_compiled(p@) matches Ok(re)
                && pattern::pattern_group(re, f.path, c@) == f.subject)))
            &&& cfg.acr_at_least matches Some(floor) ==> step_up::meets(
                order,
                f.acr,
                step_up::canonical(text::trim(floor@)),
            )
        },
{
    let re = pattern_of(cfg);
    let c = rule.criteria@;
    let m = of_methods(cfg.methods@);
    let h = of_option(cfg.host, |s: Seq<char>| rules::CriterionView::Host(s));
    let x = of_option(cfg.path_prefix, |s: Seq<char>| rules::CriterionView::PathPrefix(s));
    let p = of_pattern(re);
    let hd = of_headers(cfg.headers@);
    let st = of_state(cfg.subject_state);
    let si = of_option(
        cfg.subject_is,
        |s: Seq<char>| rules::CriterionView::Subject(rules::SubjectCheckView::Is(s)),
    );
    let ec = of_option(
        cfg.subject_equals_capture,
        |s: Seq<char>| rules::CriterionView::Subject(rules::SubjectCheckView::EqualsCapture(s)),
    );
    let ac = of_option(
        cfg.acr_at_least,
        |s: Seq<char>| rules::CriterionView::AcrAtLeast(step_up::canonical(text::trim(s))),
    );
    let s2 = m + h;
    let s3 = s2 + x;
    let s4 = s3 + p;
    let s5 = s4 + hd;
    let s6 = s5 + st;
    let s7 = s6 + si;
    let s8 = s7 + ec;
    let s9 = s8 + ac;
    assert(rules::criteria_views(c) == s9);
    assert(c.len() == s9.len());
    assert(laid_out(c, 0, s9)) by {
        assert forall|i: int| 0 <= i < s9.len() implies c[0 + i]@ == #[trigger] s9[i] by {
            assert(rules::criteria_views(c)[i] == c[i]@);
        }
    }
    lemma_laid_out_apart(c, s8, ac);
    lemma_laid_out_apart(c, s7, ec);
    lemma_laid_out_apart(c, s6, si);
    lemma_laid_out_apart(c, s5, st);
    lemma_laid_out_apart(c, s4, hd);
    lemma_laid_out_apart(c, s3, p);
    lemma_laid_out_apart(c, s2, x);
    lemma_laid_out_apart(c, m, h);
    lemma_methods_met(c, 0, cfg.methods@, f, order);
    lemma_host_met(c, m.len() as int, cfg.host, f, order);
    lemma_prefix_met(c, s2.len() as int, cfg.path_prefix, f, order);
    lemma_pattern_met(c, s3.len() as int, re, f, order);
    lemma_headers_met(c, s4.len() as int, cfg.headers@, f, order);
    lemma_state_met(c, s5.len() as int, cfg.subject_state, f, order);
    lemma_subject_met(c, s6.len() as int, cfg.subject_is, f, order);
    lemma_capture_bound(cfg, c, cfg.subject_equals_capture->0@, f.path);
    assert(s7 == criteria_before_capture(cfg, re));
    lemma_capture_met(c, s7.len() as int, cfg.subject_equals_capture, f, order);
    lemma_class_met(c, s8.len() as int, cfg.acr_at_least, f, order);
    rules::lemma_matches_alone(rule, f, order);
    lemma_all_met(
        c,
        m.len() as int,
        h.len() as int,
        x.len() as int,
        p.len() as int,
        hd.len() as int,
        st.len() as int,
        si.len() as int,
        ec.len() as int,
        ac.len() as int,
        f,
        order,
    );
}

proof fn lemma_all_met(
    c: Seq<Criterion>,
    m: int,
    h: int,
    x: int,
    p: int,
    hd: int,
    st: int,
    si: int,
    ec: int,
    ac: int,
    f: rules::FactsView,
    order: Seq<Seq<char>>,
)
    requires
        m >= 0 && h >= 0 && x >= 0 && p >= 0 && hd >= 0 && st >= 0 && si >= 0 && ec >= 0 && ac >= 0,
        c.len() == m + h + x + p + hd + st + si + ec + ac,
    ensures
        (forall|i: int| 0 <= i < c.len() ==> #[trigger] rules::meets_at(c, i, f, order)) <==> {
            &&& met_from(c, 0, m, f, order)
            &&& met_from(c, m, h, f, order)
            &&& met_from(c, m + h, x, f, order)
            &&& met_from(c, m + h + x, p, f, order)
            &&& met_from(c, m + h + x + p, hd, f, order)
            &&& met_from(c, m + h + x + p + hd, st, f, order)
            &&& met_from(c, m + h + x + p + hd + st, si, f, order)
            &&& met_from(c, m + h + x + p + hd + st + si, ec, f, order)
            &&& met_from(c, m + h + x + p + hd + st + si + ec, ac, f, order)
        },
{
}

/// What the check against a capture reads in the rule of a configuration: what its pattern captured.
proof fn lemma_capture_bound(cfg: AccessRuleConfig, c: Seq<Criterion>, name: Seq<char>, path: Seq<char>)
    requires
        rules::criteria_views(c) == criteria_of(cfg, pattern_of(cfg)),
    ensures
        ({
            let at = criteria_before_capture(cfg, pattern_of(cfg)).len() as int;
            rules::bound_before(c, at, name, path) == (match pattern_of(cfg) {
                Some(re) => pattern::pattern_group(re, path, name),
                None => None,
            })
        }),
{
    let re = pattern_of(cfg);
    let v = rules::criteria_views(c);
    let a = of_methods(cfg.methods@) + of_option(
        cfg.host,
        |s: Seq<char>| rules::CriterionView::Host(s),
    ) + of_option(cfg.path_prefix, |s: Seq<char>| rules::CriterionView::PathPrefix(s));
    let p = of_pattern(re);
    let hd = of_headers(cfg.headers@);
    let si = of_option(
        cfg.subject_is,
        |s: Seq<char>| rules::CriterionView::Subject(rules::SubjectCheckView::Is(s)),
    );
    let d = a + p;
    let b = d + hd + of_state(cfg.subject_state) + si;
    assert(b == criteria_before_capture(cfg, re));
    let at = b.len() as int;
    assert(v.len() == c.len());
    assert(at <= c.len());
    assert forall|k: int| 0 <= k < c.len() implies #[trigger] v[k] == c[k]@ by {}
    assert forall|k: int| 0 <= k < at implies #[trigger] v[k] == b[k] by {}
    assert forall|k: int| 0 <= k < a.len() implies !(#[trigger] c[k] is PathMatches) by {
        assert(v[k] == c[k]@);
        assert(b[k] == a[k]);
    }
    assert forall|k: int| d.len() <= k < at implies !(#[trigger] c[k] is PathMatches) by {
        assert(v[k] == c[k]@);
        assert(v[k] == b[k]);
        if k < d.len() + hd.len() {
            assert(b[k] == hd[k - d.len()]);
        }
    }
    lemma_no_pattern_between(c, 0, a.len() as int, name, path);
    lemma_no_pattern_between(c, d.len() as int, at, name, path);
    assert(rules::bound_before(c, 0, name, path) is None);
    if re is Some {
        let o = a.len() as int;
        assert(b[o] == p[0]);
        assert(v[o] == c[o]@);
        assert(c[o] is PathMatches);
        assert(d.len() == o + 1);
    } else {
        assert(d.len() == a.len());
    }
}

/// A rule is refused where it asks for a group or a role, where its pattern does not compile, or
/// where it names a class that no request presents here; and it is built where none of these holds.
pub proof fn law_a_rule_is_built_where_it_can_be_evaluated(cfg: AccessRuleConfig)
    ensures
        problem_of(cfg) is None <==> {
            &&& cfg.subject_in_group is None
            &&& cfg.subject_has_role is None
            &&& cfg.path_matches matches Some(p) ==> pattern::pattern_compiled(p@) is Ok
            &&& cfg.acr_at_least matches Some(floor) ==> convertible(floor@)
            &&& cfg.action is StepUp ==> convertible(
                match cfg.acr {
                    Some(named) => named@,
                    None => Seq::empty(),
                },
            )
        },
        cfg.subject_in_group is Some ==> (problem_of(
            cfg,
        ) matches Some(ConversionErrorView::Unsupported { rule, field, why }) && rule == cfg.name@
            && field == "subject_in_group"@),
        cfg.subject_in_group is None && cfg.subject_has_role is Some ==> (problem_of(
            cfg,
        ) matches Some(ConversionErrorView::Unsupported { rule, field, why }) && rule == cfg.name@
            && field == "subject_has_role"@),
{
}

/// A class can be named by its short name or in full, white space aside, unless it is that of a
/// trusted device, or none at all.
pub proof fn law_a_class_can_be_named(name: Seq<char>)
    requires
        text::trim(name) == name,
    ensures
        name == "pwd"@ || name == "mfa"@ || name == step_up::ACR_PWD@ || name == step_up::ACR_MFA@
            || name == step_up::ACR_PHR@ ==> convertible(name),
        convertible(name) ==> observable().contains(step_up::canonical(name)),
        name.len() == 0 ==> !convertible(name),
{
    lemma_rungs_differ();
    step_up::law_a_short_name_is_written_out(name);
    step_up::lemma_prefixed(name);
    let l = step_up::ladder();
    assert(l[0] == step_up::ACR_PWD@ && l[1] == step_up::ACR_MFA_REMEMBERED@ && l[2]
        == step_up::ACR_MFA@ && l[3] == step_up::ACR_PHR@ && l[4] == step_up::ACR_PHRH@ && l[5]
        == step_up::ACR_ATTESTED_PASSKEY@);
    let o = observable();
    assert(o[0] == l[0] && o[1] == l[2] && o[2] == l[3] && o[3] == l[4] && o[4] == l[5]);
    if convertible(name) {
        let k = choose|k: int| 0 <= k < l.len() && l[k] == step_up::canonical(name);
        assert(k != 1);
        if k == 0 {
            assert(o[0] == step_up::canonical(name));
        } else {
            assert(o[k - 1] == step_up::canonical(name));
        }
    }
}

/// The rules of a surface are those of its configuration, each in its place, and classes are ranked
/// as they are configured, or by the ladder where nothing is.
pub proof fn law_the_order_of_the_rules_is_kept(
    built: Seq<Rule>,
    list: Seq<AccessRuleConfig>,
    acr_order: Seq<String>,
    i: int,
)
    requires
        built_from(built, list),
    ensures
        built.len() == list.len(),
        0 <= i < list.len() ==> built[i].name@ == list[i].name@,
        acr_order.len() == 0 ==> order_for(acr_order) == step_up::ladder(),
        acr_order.len() > 0 ==> order_for(acr_order).len() == acr_order.len(),
        0 <= i < acr_order.len() ==> order_for(acr_order)[i] == acr_order[i]@,
        dialect_of(ProxyDialectConfig::ForwardAuth) is ForwardAuth,
        dialect_of(ProxyDialectConfig::NginxAuthRequest) is NginxAuthRequest,
        dialect_of(ProxyDialectConfig::Haproxy) is Haproxy,
{
    if 0 <= i < list.len() {
        assert(built[i]@ == rule_of(list[i]));
    }
}

/// A list is refused for its first rule that cannot be built, and only for such a one.
pub proof fn law_a_list_is_refused_for_its_first_problem(list: Seq<AccessRuleConfig>, i: int)
    requires
        0 <= i <= list.len(),
        forall|k: int| 0 <= k < i ==> problem_of(#[trigger] list[k]) is None,
    ensures
        i == list.len() ==> first_problem(list) is None,
        i < list.len() && problem_of(list[i]) is Some ==> first_problem(list) == problem_of(list[i]),
    decreases i,
{
    if i > 0 {
        let rest = list.skip(1);
        assert(problem_of(list[0]) is None);
        assert forall|k: int| 0 <= k < i - 1 implies problem_of(#[trigger] rest[k]) is None by {
            assert(rest[k] == list[k + 1]);
        }
        law_a_list_is_refused_for_its_first_problem(rest, i - 1);
        if i < list.len() {
            assert(rest[i - 1] == list[i]);
        }
    }
}

/// `s` ends with `end`.
pub open spec fn ends_with(s: Seq<char>, end: Seq<char>) -> bool {
    s.len() >= end.len() && s.skip(s.len() - end.len()) == end
}

/// What an operator reads of a rule that cannot be built begins with the name of the rule and ends
/// with why: what this build cannot evaluate, the levels that are known, or what is wrong with the
/// pattern.
pub proof fn law_an_operator_reads_which_rule_and_why(error: ConversionErrorView)
    ensures
        error matches ConversionErrorView::Unsupported { rule, field, why } ==> error.message()
            == "forward-auth rule `"@ + rule + "` uses `"@ + field
            + "`, which this build cannot evaluate: "@ + why,
        error matches ConversionErrorView::UnknownAcr { rule, field, value, known } ==> (
        "forward-auth rule `"@ + rule + "` sets `"@ + field + "` to `"@ + value).is_prefix_of(
            error.message(),
        ) && ends_with(error.message(), text::join(known, ", "@)),
        error matches ConversionErrorView::Pattern { rule, message } ==> ("forward-auth rule `"@
            + rule).is_prefix_of(error.message()) && ends_with(error.message(), message),
{
    match error {
        ConversionErrorView::UnknownAcr { rule, field, value, known } => {
            let m = error.message();
            let start = "forward-auth rule `"@ + rule + "` sets `"@ + field + "` to `"@ + value;
            let end = text::join(known, ", "@);
            assert(m.take(start.len() as int) =~= start);
            assert(m.skip(m.len() - end.len()) =~= end);
        },
        ConversionErrorView::Pattern { rule, message } => {
            let m = error.message();
            let start = "forward-auth rule `"@ + rule;
            assert(m.take(start.len() as int) =~= start);
            assert(m.skip(m.len() - message.len()) =~= message);
        },
        _ => {},
    }
}

} // verus!
