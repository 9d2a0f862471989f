//! The access rules: an ordered list, of which the first that matches a request decides it.

use vstd::prelude::*;

use crate::headers::Headers;
use crate::pattern;
use crate::step_up;
use crate::text;

verus! {

// ---------------------------------------------------------------------------
// Requests
// ---------------------------------------------------------------------------

/// What a rule can read of a request.
#[derive(Debug, Clone, PartialEq, Eq)]
pub struct RequestFacts {
    /// The method.
    pub method: String,
    /// The host, without a port.
    pub host: String,
    /// The path, without a query.
    pub path: String,
    /// The headers.
    pub headers: Headers,
    /// The subject, absent for an anonymous caller.
    pub subject: Option<String>,
    /// The groups of the subject.
    pub groups: Vec<String>,
    /// The roles of the subject.
    pub roles: Vec<String>,
    /// The context class that the session of the subject achieved.
    pub acr: Option<String>,
}

/// The model of [`RequestFacts`].
#[verifier::ext_equal]
pub struct FactsView {
    pub method: Seq<char>,
    pub host: Seq<char>,
    pub path: Seq<char>,
    pub headers: Map<Seq<char>, Seq<char>>,
    pub subject: Option<Seq<char>>,
    pub groups: Seq<Seq<char>>,
    pub roles: Seq<Seq<char>>,
    pub acr: Option<Seq<char>>,
}

impl View for RequestFacts {
    type V = FactsView;

    open spec fn view(&self) -> FactsView {
        FactsView {
            method: self.method@,
            host: self.host@,
            path: self.path@,
            headers: self.headers@,
            subject: text::opt_text(self.subject),
            groups: text::texts(self.groups@),
            roles: text::texts(self.roles@),
            acr: text::opt_text(self.acr),
        }
    }
}

/// The facts of which nothing is known.
pub open spec fn no_facts() -> FactsView {
    FactsView {
        method: Seq::empty(),
        host: Seq::empty(),
        path: Seq::empty(),
        headers: Map::empty(),
        subject: None,
        groups: Seq::empty(),
        roles: Seq::empty(),
        acr: None,
    }
}

impl Default for RequestFacts {
    fn default() -> (r: RequestFacts)
        ensures
            r@ == no_facts(),
    {
        let r = RequestFacts {
            method: String::new(),
            host: String::new(),
            path: String::new(),
            headers: Headers::new(),
            subject: None,
            groups: Vec::new(),
            roles: Vec::new(),
            acr: None,
        };
        assert(r@ =~= no_facts());
        r
    }
}

impl RequestFacts {
    /// The same facts once more.
    pub fn copied(&self) -> (r: RequestFacts)
        ensures
            r@ == self@,
    {
        RequestFacts {
            method: self.method.clone(),
            host: self.host.clone(),
            path: self.path.clone(),
            headers: self.headers.clone(),
            subject: text::clone_opt(&self.subject),
            groups: text::clone_texts(&self.groups),
            roles: text::clone_texts(&self.roles),
            acr: text::clone_opt(&self.acr),
        }
    }
}

// ---------------------------------------------------------------------------
// Rules
// ---------------------------------------------------------------------------

/// What a rule does with a request that it matches.
#[derive(Debug, Clone, PartialEq, Eq)]
pub enum Action {
    /// The request is allowed.
    Allow,
    /// The request is denied.
    Deny,
    /// The request is allowed to a session of this class or a stronger one; any other is asked
    /// to reach it.
    StepUp { acr: String },
}

/// The model of an [`Action`].
pub enum ActionView {
    Allow,
    Deny,
    StepUp { acr: Seq<char> },
}

impl View for Action {
    type V = ActionView;

    open spec fn view(&self) -> ActionView {
        match self {
            Action::Allow => ActionView::Allow,
            Action::Deny => ActionView::Deny,
            Action::StepUp { acr } => ActionView::StepUp { acr: acr@ },
        }
    }
}

/// What a criterion asks of the subject.
#[derive(Debug, Clone, PartialEq, Eq)]
pub enum SubjectCheck {
    /// There is one.
    Authenticated,
    /// There is none.
    Anonymous,
    /// It is this one.
    Is(String),
    /// It is in this group.
    InGroup(String),
    /// It has this role.
    HasRole(String),
    /// It is what this group of a pattern captured. The pattern stands earlier in the same rule.
    EqualsCapture(String),
}

/// What a rule asks of a request.
#[derive(Debug)]
pub enum Criterion {
    /// The method is one of these.
    Method(Vec<String>),
    /// The host is this one.
    Host(String),
    /// The path begins with this.
    PathPrefix(String),
    /// The pattern matches in the path.
    PathMatches(regex::Regex),
    /// The header has this value.
    Header { name: String, value: String },
    /// The subject passes this check.
    Subject(SubjectCheck),
    /// The session is of this class or of a stronger one.
    AcrAtLeast(String),
}

/// A rule matches a request that meets all of its criteria.
#[derive(Debug)]
pub struct Rule {
    /// The name, for operators.
    pub name: String,
    /// The criteria, in order.
    pub criteria: Vec<Criterion>,
    /// What is done with a request that meets them.
    pub action: Action,
}

/// The model of a [`SubjectCheck`].
pub enum SubjectCheckView {
    Authenticated,
    Anonymous,
    Is(Seq<char>),
    InGroup(Seq<char>),
    HasRole(Seq<char>),
    EqualsCapture(Seq<char>),
}

impl View for SubjectCheck {
    type V = SubjectCheckView;

    open spec fn view(&self) -> SubjectCheckView {
        match self {
            SubjectCheck::Authenticated => SubjectCheckView::Authenticated,
            SubjectCheck::Anonymous => SubjectCheckView::Anonymous,
            SubjectCheck::Is(s) => SubjectCheckView::Is(s@),
            SubjectCheck::InGroup(s) => SubjectCheckView::InGroup(s@),
            SubjectCheck::HasRole(s) => SubjectCheckView::HasRole(s@),
            SubjectCheck::EqualsCapture(s) => SubjectCheckView::EqualsCapture(s@),
        }
    }
}

/// The model of a [`Criterion`].
pub enum CriterionView {
    Method(Seq<Seq<char>>),
    Host(Seq<char>),
    PathPrefix(Seq<char>),
    PathMatches(regex::Regex),
    Header { name: Seq<char>, value: Seq<char> },
    Subject(SubjectCheckView),
    AcrAtLeast(Seq<char>),
}

impl View for Criterion {
    type V = CriterionView;

    open spec fn view(&self) -> CriterionView {
        match self {
            Criterion::Method(methods) => CriterionView::Method(text::texts(methods@)),
            Criterion::Host(host) => CriterionView::Host(host@),
            Criterion::PathPrefix(prefix) => CriterionView::PathPrefix(prefix@),
            Criterion::PathMatches(re) => CriterionView::PathMatches(*re),
            Criterion::Header { name, value } => CriterionView::Header {
                name: name@,
                value: value@,
            },
            Criterion::Subject(check) => CriterionView::Subject(check@),
            Criterion::AcrAtLeast(floor) => CriterionView::AcrAtLeast(floor@),
        }
    }
}

/// The models of a list of criteria.
pub open spec fn criteria_views(v: Seq<Criterion>) -> Seq<CriterionView> {
    v.map_values(|c: Criterion| c@)
}

/// The model of a [`Rule`].
#[verifier::ext_equal]
pub struct RuleView {
    pub name: Seq<char>,
    pub criteria: Seq<CriterionView>,
    pub action: ActionView,
}

impl View for Rule {
    type V = RuleView;

    open spec fn view(&self) -> RuleView {
        RuleView {
            name: self.name@,
            criteria: criteria_views(self.criteria@),
            action: self.action@,
        }
    }
}

/// The subject of `f` passes the check; `bound` is what the group that the check names captured.
pub open spec fn subject_passes(check: SubjectCheck, f: FactsView, bound: Option<Seq<char>>) -> bool {
    match check {
        SubjectCheck::Authenticated => f.subject is Some,
        SubjectCheck::Anonymous => f.subject is None,
        SubjectCheck::Is(subject) => f.subject == Some(subject@),
        SubjectCheck::InGroup(group) => f.groups.contains(group@),
        SubjectCheck::HasRole(role) => f.roles.contains(role@),
        SubjectCheck::EqualsCapture(name) => f.subject is Some && f.subject == bound,
    }
}

/// `f` meets the criterion. For a pattern, `matched` says whether it matches in the path; for a
/// check against a capture, `bound` is what was captured.
pub open spec fn meets_criterion(
    c: Criterion,
    f: FactsView,
    order: Seq<Seq<char>>,
    matched: bool,
    bound: Option<Seq<char>>,
) -> bool {
    match c {
        Criterion::Method(methods) => text::texts(methods@).contains(f.method),
        Criterion::Host(host) => f.host == host@,
        Criterion::PathPrefix(prefix) => prefix@.is_prefix_of(f.path),
        Criterion::PathMatches(re) => matched,
        Criterion::Header { name, value } => f.headers.contains_key(name@) && f.headers[name@]
            == value@,
        Criterion::Subject(check) => subject_passes(check, f, bound),
        Criterion::AcrAtLeast(floor) => step_up::meets(order, f.acr, floor@),
    }
}

/// Whether the pattern of a criterion matches in the path.
pub open spec fn pattern_hit(c: Criterion, path: Seq<char>) -> bool {
    match c {
        Criterion::PathMatches(re) => pattern::pattern_matches(re, path),
        _ => false,
    }
}

/// What the group `name` captured in the nearest pattern, among the first `i` criteria, in which
/// it captured anything.
pub open spec fn bound_before(criteria: Seq<Criterion>, i: int, name: Seq<char>, path: Seq<char>) -> Option<
    Seq<char>,
>
    decreases i,
{
    if i <= 0 {
        None
    } else {
        match criteria[i - 1] {
            Criterion::PathMatches(re) => match pattern::pattern_group(re, path, name) {
                Some(value) => Some(value),
                None => bound_before(criteria, i - 1, name, path),
            },
            _ => bound_before(criteria, i - 1, name, path),
        }
    }
}

/// What the check at place `i` reads: the capture that it names, for a check against one.
pub open spec fn bound_at(criteria: Seq<Criterion>, i: int, path: Seq<char>) -> Option<Seq<char>> {
    match criteria[i] {
        Criterion::Subject(SubjectCheck::EqualsCapture(name)) => bound_before(
            criteria,
            i,
            name@,
            path,
        ),
        _ => None,
    }
}

/// `f` meets the criterion at place `i` of a rule.
pub open spec fn meets_at(criteria: Seq<Criterion>, i: int, f: FactsView, order: Seq<Seq<char>>) -> bool {
    meets_criterion(
        criteria[i],
        f,
        order,
        pattern_hit(criteria[i], f.path),
        bound_at(criteria, i, f.path),
    )
}

/// The rule matches `f`: every criterion is met.
pub open spec fn rule_matches(rule: Rule, f: FactsView, order: Seq<Seq<char>>) -> bool {
    forall|i: int| 0 <= i < rule.criteria@.len() ==> #[trigger] meets_at(rule.criteria@, i, f, order)
}

/// What an action comes to for a session of class `acr`: a step-up that is already met allows.
pub open spec fn resolved(action: ActionView, acr: Option<Seq<char>>, order: Seq<Seq<char>>) -> ActionView {
    match action {
        ActionView::StepUp { acr: required } => if step_up::meets(order, acr, required) {
            ActionView::Allow
        } else {
            action
        },
        _ => action,
    }
}

impl SubjectCheck {
    /// Whether the subject passes this check, `bound` being what the group that it names captured.
    pub fn passes(&self, facts: &RequestFacts, bound: Option<&str>) -> (r: bool)
        ensures
            r == subject_passes(*self, facts@, text::opt_str(bound)),
    {
        match self {
            SubjectCheck::Authenticated => facts.subject.is_some(),
            SubjectCheck::Anonymous => facts.subject.is_none(),
            SubjectCheck::Is(subject) => match &facts.subject {
                Some(s) => text::same(s.as_str(), subject.as_str()),
                None => false,
            },
            SubjectCheck::InGroup(group) => text::list_holds(&facts.groups, group.as_str()),
            SubjectCheck::HasRole(role) => text::list_holds(&facts.roles, role.as_str()),
            SubjectCheck::EqualsCapture(_) => match (&facts.subject, bound) {
                (Some(s), Some(b)) => text::same(s.as_str(), b),
                _ => false,
            },
        }
    }
}

impl Criterion {
    /// Whether a request meets this criterion. `matched` says whether the pattern of the
    /// criterion matches in the path, and `bound` is what the group that it names captured.
    pub fn holds(
        &self,
        facts: &RequestFacts,
        order: &Vec<String>,
        matched: bool,
        bound: Option<&str>,
    ) -> (r: bool)
        ensures
            r == meets_criterion(
                *self,
                facts@,
                text::texts(order@),
                matched,
                text::opt_str(bound),
            ),
    {
        match self {
            Criterion::Method(methods) => text::list_holds(methods, facts.method.as_str()),
            Criterion::Host(host) => text::same(facts.host.as_str(), host.as_str()),
            Criterion::PathPrefix(prefix) => text::has_prefix(facts.path.as_str(), prefix.as_str()),
            Criterion::PathMatches(_) => matched,
            Criterion::Header { name, value } => match facts.headers.get(name.as_str()) {
                Some(v) => text::same(v.as_str(), value.as_str()),
                None => false,
            },
            Criterion::Subject(check) => check.passes(facts, bound),
            Criterion::AcrAtLeast(floor) => match &facts.acr {
                Some(acr) => step_up::acr_meets(order, Some(acr.as_str()), floor.as_str()),
                None => false,
            },
        }
    }
}

impl Rule {
    /// What the group `name` captured in the nearest pattern among the first `i` criteria.
    fn bound(&self, i: usize, name: &str, path: &str) -> (r: Option<String>)
        requires
            i <= self.criteria@.len(),
        ensures
            text::opt_text(r) == bound_before(self.criteria@, i as int, name@, path@),
    {
        let mut k: usize = i;
        while k > 0
            invariant
                k <= self.criteria@.len(),
                bound_before(self.criteria@, i as int, name@, path@) == bound_before(
                    self.criteria@,
                    k as int,
                    name@,
                    path@,
                ),
            decreases k,
        {
            match &self.criteria[k - 1] {
                Criterion::PathMatches(re) => {
                    let value = pattern::captured(re, path, name);
                    if value.is_some() {
                        return value;
                    }
                },
                _ => {},
            }
            k = k - 1;
        }
        None
    }

    /// Whether this rule matches a request.
    pub fn matches(&self, facts: &RequestFacts, order: &Vec<String>) -> (r: bool)
        ensures
            r == rule_matches(*self, facts@, text::texts(order@)),
    {
        let mut i: usize = 0;
        while i < self.criteria.len()
            invariant
                i <= self.criteria@.len(),
                forall|k: int|
                    0 <= k < i ==> #[trigger] meets_at(
                        self.criteria@,
                        k,
                        facts@,
                        text::texts(order@),
                    ),
            decreases self.criteria@.len() - i,
        {
            let matched: bool = match &self.criteria[i] {
                Criterion::PathMatches(re) => pattern::is_match(re, facts.path.as_str()),
                _ => false,
            };
            let bound: Option<String> = match &self.criteria[i] {
                Criterion::Subject(SubjectCheck::EqualsCapture(name)) => self.bound(
                    i,
                    name.as_str(),
                    facts.path.as_str(),
                ),
                _ => None,
            };
            let bound_ref: Option<&str> = match &bound {
                Some(b) => Some(b.as_str()),
                None => None,
            };
            if !self.criteria[i].holds(facts, order, matched, bound_ref) {
                assert(!meets_at(self.criteria@, i as int, facts@, text::texts(order@)));
                return false;
            }
            assert(meets_at(self.criteria@, i as int, facts@, text::texts(order@)));
            i = i + 1;
        }
        true
    }
}

// ---------------------------------------------------------------------------
// Decisions
// ---------------------------------------------------------------------------

/// What the rules come to for a request.
#[derive(Debug, Clone, PartialEq, Eq)]
pub struct Decision {
    /// What is done with the request.
    pub action: Action,
    /// The name of the rule that decided, if one did.
    pub matched: Option<String>,
}

/// The model of a [`Decision`].
pub struct DecisionView {
    pub action: ActionView,
    pub matched: Option<Seq<char>>,
}

impl View for Decision {
    type V = DecisionView;

    open spec fn view(&self) -> DecisionView {
        DecisionView { action: self.action@, matched: text::opt_text(self.matched) }
    }
}

/// The decision where no rule matches: the request is denied.
pub open spec fn unmatched() -> DecisionView {
    DecisionView { action: ActionView::Deny, matched: None }
}

impl Decision {
    /// The decision where no rule matches.
    pub fn no_match() -> (r: Decision)
        ensures
            r@ == unmatched(),
    {
        Decision { action: Action::Deny, matched: None }
    }
}

/// The rule at place `i` is the first that matches `f`.
pub open spec fn decides(rules: Seq<Rule>, i: int, f: FactsView, order: Seq<Seq<char>>) -> bool {
    &&& 0 <= i < rules.len()
    &&& rule_matches(rules[i], f, order)
    &&& forall|k: int| 0 <= k < i ==> !rule_matches(#[trigger] rules[k], f, order)
}

/// The decision on `f`: that of the first rule that matches, and a denial where none does.
pub open spec fn decision(rules: Seq<Rule>, f: FactsView, order: Seq<Seq<char>>) -> DecisionView {
    if exists|i: int| #[trigger] decides(rules, i, f, order) {
        let i = choose|i: int| #[trigger] decides(rules, i, f, order);
        DecisionView {
            action: resolved(rules[i].action@, f.acr, order),
            matched: Some(rules[i].name@),
        }
    } else {
        unmatched()
    }
}

/// The first rule that matches is unique, so that it alone decides.
pub proof fn law_the_first_match_decides(rules: Seq<Rule>, i: int, f: FactsView, order: Seq<Seq<char>>)
    requires
        decides(rules, i, f, order),
    ensures
        decision(rules, f, order) == (DecisionView {
            action: resolved(rules[i].action@, f.acr, order),
            matched: Some(rules[i].name@),
        }),
{
    let k = choose|k: int| #[trigger] decides(rules, k, f, order);
    assert(decides(rules, k, f, order));
    if k < i {
        assert(!rule_matches(rules[k], f, order));
    } else if i < k {
        assert(!rule_matches(rules[i], f, order));
    }
}

/// Whether a rule matches a request.
#[derive(Debug, Clone, PartialEq, Eq)]
pub struct RuleAnswer {
    /// The name of the rule.
    pub rule: String,
    /// It matches.
    pub matches: bool,
}

/// What every rule says of a request, in order. It is no decision.
#[derive(Debug, Clone, PartialEq, Eq)]
pub struct Explanation {
    pub answers: Vec<RuleAnswer>,
}

/// The answers are those of the rules, each to its own.
pub open spec fn explains(
    answers: Seq<RuleAnswer>,
    rules: Seq<Rule>,
    f: FactsView,
    order: Seq<Seq<char>>,
) -> bool {
    &&& answers.len() == rules.len()
    &&& forall|i: int|
        0 <= i < rules.len() ==> (#[trigger] answers[i]).rule@ == rules[i].name@
            && answers[i].matches == rule_matches(rules[i], f, order)
}

/// An ordered list of rules, and the order in which it ranks context classes.
#[derive(Debug)]
pub struct RuleSet {
    rules: Vec<Rule>,
    acr_order: Vec<String>,
}

impl RuleSet {
    /// The rules, in order.
    pub closed spec fn spec_rules(&self) -> Seq<Rule> {
        self.rules@
    }

    /// The order of the context classes.
    pub closed spec fn order(&self) -> Seq<Seq<char>> {
        text::texts(self.acr_order@)
    }

    /// A rule set over the ladder as it stands where nothing is configured.
    pub fn new(rules: Vec<Rule>) -> (r: RuleSet)
        ensures
            r.spec_rules() == rules@,
            r.order() == step_up::ladder(),
    {
        RuleSet { rules, acr_order: step_up::default_acr_order() }
    }

    /// The same rules over another order.
    pub fn with_acr_order(self, acr_order: Vec<String>) -> (r: RuleSet)
        ensures
            r.spec_rules() == self.spec_rules(),
            r.order() == text::texts(acr_order@),
    {
        RuleSet { rules: self.rules, acr_order }
    }

    /// The order of the context classes.
    pub fn acr_order(&self) -> (r: &Vec<String>)
        ensures
            text::texts(r@) == self.order(),
    {
        &self.acr_order
    }

    /// The rules, in order.
    pub fn rules(&self) -> (r: &Vec<Rule>)
        ensures
            r@ == self.spec_rules(),
    {
        &self.rules
    }

    /// Decides a request: the first rule that matches does, and where none matches the request
    /// is denied.
    pub fn decide(&self, facts: &RequestFacts) -> (r: Decision)
        ensures
            r@ == decision(self.spec_rules(), facts@, self.order()),
    {
        let mut i: usize = 0;
        while i < self.rules.len()
            invariant
                i <= self.rules@.len(),
                forall|k: int|
                    0 <= k < i ==> !rule_matches(
                        #[trigger] self.spec_rules()[k],
                        facts@,
                        self.order(),
                    ),
            decreases self.rules@.len() - i,
        {
            if self.rules[i].matches(facts, &self.acr_order) {
                proof {
                    law_the_first_match_decides(
                        self.spec_rules(),
                        i as int,
                        facts@,
                        self.order(),
                    );
                }
                let action: Action = match &self.rules[i].action {
                    Action::Allow => Action::Allow,
                    Action::Deny => Action::Deny,
                    Action::StepUp { acr } => {
                        let reached: bool = match &facts.acr {
                            Some(a) => step_up::acr_meets(
                                &self.acr_order,
                                Some(a.as_str()),
                                acr.as_str(),
                            ),
                            None => false,
                        };
                        if reached {
                            Action::Allow
                        } else {
                            Action::StepUp { acr: acr.clone() }
                        }
                    },
                };
                return Decision { action, matched: Some(self.rules[i].name.clone()) };
            }
            i = i + 1;
        }
        proof {
            if exists|k: int| #[trigger] decides(self.spec_rules(), k, facts@, self.order()) {
                let k = choose|k: int|
                    #[trigger] decides(self.spec_rules(), k, facts@, self.order());
                assert(!rule_matches(self.spec_rules()[k], facts@, self.order()));
            }
        }
        Decision::no_match()
    }

    /// What every rule says of a request. Nothing is decided by it.
    pub fn explain(&self, facts: &RequestFacts) -> (r: Explanation)
        ensures
            explains(r.answers@, self.spec_rules(), facts@, self.order()),
    {
        let mut answers: Vec<RuleAnswer> = Vec::new();
        let mut i: usize = 0;
        while i < self.rules.len()
            invariant
                i <= self.rules@.len(),
                explains(answers@, self.spec_rules().take(i as int), facts@, self.order()),
            decreases self.rules@.len() - i,
        {
            let ghost before = answers@;
            answers.push(
                RuleAnswer {
                    rule: self.rules[i].name.clone(),
                    matches: self.rules[i].matches(facts, &self.acr_order),
                },
            );
            assert forall|k: int| 0 <= k < i + 1 implies (#[trigger] answers@[k]).rule@
                == self.spec_rules().take(i + 1)[k].name@ && answers@[k].matches == rule_matches(
                self.spec_rules().take(i + 1)[k],
                facts@,
                self.order(),
            ) by {
                if k < i {
                    assert(answers@[k] == before[k]);
                    assert(self.spec_rules().take(i as int)[k] == self.spec_rules()[k]);
                }
            }
            i = i + 1;
        }
        assert(self.spec_rules().take(self.spec_rules().len() as int) =~= self.spec_rules());
        Explanation { answers }
    }
}

// ---------------------------------------------------------------------------
// Laws
// ---------------------------------------------------------------------------

/// An explanation agrees with the decision: the first rule that it says matches is the one that
/// decides, and where it says that none does the request is denied.
pub proof fn law_an_explanation_agrees_with_the_decision(
    answers: Seq<RuleAnswer>,
    rules: Seq<Rule>,
    f: FactsView,
    order: Seq<Seq<char>>,
)
    requires
        explains(answers, rules, f, order),
    ensures
        forall|i: int|
            #![trigger answers[i]]
            0 <= i < answers.len() && answers[i].matches && (forall|k: int|
                0 <= k < i ==> !(#[trigger] answers[k]).matches) ==> decision(rules, f, order)
                == (DecisionView {
                action: resolved(rules[i].action@, f.acr, order),
                matched: Some(answers[i].rule@),
            }),
        (forall|k: int| 0 <= k < answers.len() ==> !(#[trigger] answers[k]).matches) ==> decision(
            rules,
            f,
            order,
        ) == unmatched(),
{
    assert forall|i: int|
        #![trigger answers[i]]
        0 <= i < answers.len() && answers[i].matches && (forall|k: int|
            0 <= k < i ==> !(#[trigger] answers[k]).matches) implies decision(rules, f, order) == (
    DecisionView {
        action: resolved(rules[i].action@, f.acr, order),
        matched: Some(answers[i].rule@),
    }) by {
        assert forall|k: int| 0 <= k < i implies !rule_matches(#[trigger] rules[k], f, order) by {
            assert(!answers[k].matches);
        }
        law_the_first_match_decides(rules, i, f, order);
    }
    if forall|k: int| 0 <= k < answers.len() ==> !(#[trigger] answers[k]).matches {
        if exists|i: int| #[trigger] decides(rules, i, f, order) {
            let i = choose|i: int| #[trigger] decides(rules, i, f, order);
            assert(!answers[i].matches);
        }
    }
}

/// A step-up is never answered by a session without a context class, and one that is met by the
/// class a session has is met by every class above that.
pub proof fn law_step_up_is_monotonic(
    order: Seq<Seq<char>>,
    weaker: Seq<char>,
    stronger: Seq<char>,
    required: Seq<char>,
)
    requires
        step_up::meets(order, Some(weaker), required),
        step_up::meets(order, Some(stronger), weaker),
    ensures
        step_up::meets(order, Some(stronger), required),
        !step_up::meets(order, None, required),
{
}

/// One rule decides whether it matches: what it does is done then, under its name, and the request
/// is denied under no name otherwise.
pub proof fn law_one_rule_decides_by_itself(rule: Rule, f: FactsView, order: Seq<Seq<char>>)
    ensures
        ({
            let d = decision(seq![rule], f, order);
            &&& d.matched is Some ==> d.matched == Some(rule.name@)
            &&& d.matched is None ==> d.action is Deny
            &&& d.matched is Some && rule.action is Allow ==> d.action is Allow
            &&& d.matched is Some && rule.action is Deny ==> d.action is Deny
            &&& rule.action is Deny ==> d.action is Deny
            &&& d.action is StepUp ==> (rule.action matches Action::StepUp { acr } && d.action
                == ActionView::StepUp { acr: acr@ })
        }),
        rule.criteria@.len() == 0 ==> decision(seq![rule], f, order).matched == Some(rule.name@),
{
    if rule.criteria@.len() == 0 {
        assert(decides(seq![rule], 0, f, order));
    }
    if exists|i: int| #[trigger] decides(seq![rule], i, f, order) {
        let i = choose|i: int| #[trigger] decides(seq![rule], i, f, order);
        law_the_first_match_decides(seq![rule], i, f, order);
    }
}

/// The first rule decides where it matches on its own, and where it does not, the rules behind it
/// decide as if it were not there.
pub proof fn law_a_list_is_tried_in_order(
    first: Rule,
    rest: Seq<Rule>,
    f: FactsView,
    order: Seq<Seq<char>>,
)
    ensures
        decision(seq![first], f, order).matched is Some ==> decision(seq![first] + rest, f, order)
            == decision(seq![first], f, order),
        decision(seq![first], f, order).matched is None ==> decision(seq![first] + rest, f, order)
            == decision(rest, f, order),
        decision(Seq::<Rule>::empty(), f, order).action is Deny,
        decision(Seq::<Rule>::empty(), f, order).matched is None,
{
    let all = seq![first] + rest;
    assert(all[0] == first);
    if rule_matches(first, f, order) {
        assert(decides(seq![first], 0, f, order));
        assert(decides(all, 0, f, order));
        law_the_first_match_decides(seq![first], 0, f, order);
        law_the_first_match_decides(all, 0, f, order);
    } else {
        if exists|i: int| #[trigger] decides(seq![first], i, f, order) {
            let i = choose|i: int| #[trigger] decides(seq![first], i, f, order);
            assert(seq![first][i] == first);
        }
        if exists|i: int| #[trigger] decides(rest, i, f, order) {
            let i = choose|i: int| #[trigger] decides(rest, i, f, order);
            assert(all[i + 1] == rest[i]);
            assert forall|k: int| 0 <= k < i + 1 implies !rule_matches(
                #[trigger] all[k],
                f,
                order,
            ) by {
                if k > 0 {
                    assert(all[k] == rest[k - 1]);
                }
            }
            assert(decides(all, i + 1, f, order));
            law_the_first_match_decides(all, i + 1, f, order);
            law_the_first_match_decides(rest, i, f, order);
        } else if exists|i: int| #[trigger] decides(all, i, f, order) {
            let i = choose|i: int| #[trigger] decides(all, i, f, order);
            assert(i > 0);
            assert(all[i] == rest[i - 1]);
            assert forall|k: int| 0 <= k < i - 1 implies !rule_matches(
                #[trigger] rest[k],
                f,
                order,
            ) by {
                assert(all[k + 1] == rest[k]);
            }
            assert(decides(rest, i - 1, f, order));
        }
    }
    if exists|i: int| #[trigger] decides(Seq::<Rule>::empty(), i, f, order) {
        let i = choose|i: int| #[trigger] decides(Seq::<Rule>::empty(), i, f, order);
        assert(false);
    }
}

proof fn lemma_single(rule: Rule, f: FactsView, order: Seq<Seq<char>>)
    ensures
        (decision(seq![rule], f, order).matched is Some) == rule_matches(rule, f, order),
{
    if rule_matches(rule, f, order) {
        assert(decides(seq![rule], 0, f, order));
    }
    if exists|i: int| #[trigger] decides(seq![rule], i, f, order) {
        let i = choose|i: int| #[trigger] decides(seq![rule], i, f, order);
        assert(seq![rule][i] == rule);
    }
}

/// A rule on its own decides where it matches.
pub proof fn lemma_matches_alone(rule: Rule, f: FactsView, order: Seq<Seq<char>>)
    ensures
        (decision(seq![rule], f, order).matched is Some) == rule_matches(rule, f, order),
{
    lemma_single(rule, f, order);
}

/// No criterion reads what a pattern captured.
pub open spec fn captures_nothing(rule: Rule) -> bool {
    forall|i: int|
        0 <= i < rule.criteria@.len() ==> !(#[trigger] rule.criteria@[i] matches Criterion::Subject(
            SubjectCheck::EqualsCapture(_),
        ))
}

/// A rule asks for all of its criteria: one that asks for what two others ask for matches where
/// both of them do.
pub proof fn law_a_rule_asks_for_all_its_criteria(
    both: Rule,
    one: Rule,
    other: Rule,
    f: FactsView,
    order: Seq<Seq<char>>,
)
    requires
        both.criteria@ == one.criteria@ + other.criteria@,
        captures_nothing(both),
    ensures
        (decision(seq![both], f, order).matched is Some) == (decision(
            seq![one],
            f,
            order,
        ).matched is Some && decision(seq![other], f, order).matched is Some),
{
    lemma_single(both, f, order);
    lemma_single(one, f, order);
    lemma_single(other, f, order);
    let n = one.criteria@.len() as int;
    assert forall|i: int| 0 <= i < n implies meets_at(both.criteria@, i, f, order) == meets_at(
        one.criteria@,
        i,
        f,
        order,
    ) by {
        assert(both.criteria@[i] == one.criteria@[i]);
        assert(!(both.criteria@[i] matches Criterion::Subject(SubjectCheck::EqualsCapture(_))));
    }
    assert forall|i: int| 0 <= i < other.criteria@.len() implies meets_at(
        both.criteria@,
        n + i,
        f,
        order,
    ) == meets_at(other.criteria@, i, f, order) by {
        assert(both.criteria@[n + i] == other.criteria@[i]);
        assert(!(both.criteria@[n + i] matches Criterion::Subject(
            SubjectCheck::EqualsCapture(_),
        )));
    }
    if rule_matches(both, f, order) {
        assert forall|i: int| 0 <= i < n implies #[trigger] meets_at(one.criteria@, i, f, order) by {
            assert(meets_at(both.criteria@, i, f, order));
        }
        assert forall|i: int| 0 <= i < other.criteria@.len() implies #[trigger] meets_at(
            other.criteria@,
            i,
            f,
            order,
        ) by {
            assert(meets_at(both.criteria@, n + i, f, order));
        }
    }
    if rule_matches(one, f, order) && rule_matches(other, f, order) {
        assert forall|i: int| 0 <= i < both.criteria@.len() implies #[trigger] meets_at(
            both.criteria@,
            i,
            f,
            order,
        ) by {
            if i < n {
                assert(meets_at(one.criteria@, i, f, order));
            } else {
                assert(meets_at(other.criteria@, i - n, f, order));
                assert(n + (i - n) == i);
            }
        }
    }
}

proof fn lemma_only_criterion(rule: Rule, c: Criterion, f: FactsView, order: Seq<Seq<char>>)
    requires
        rule.criteria@ == seq![c],
    ensures
        (decision(seq![rule], f, order).matched is Some) == meets_at(rule.criteria@, 0, f, order),
        rule.criteria@[0] == c,
{
    lemma_single(rule, f, order);
    assert(rule.criteria@[0] == c);
    assert(rule.criteria@.len() == 1);
}

/// A rule for methods, for a host, for a prefix of the path or for a pattern matches a request with
/// one of these methods, to this host, whose path begins with this, or in whose path it matches.
pub proof fn law_a_rule_reads_where_a_request_goes(
    rule: Rule,
    c: Criterion,
    f: FactsView,
    order: Seq<Seq<char>>,
)
    requires
        rule.criteria@ == seq![c],
    ensures
        ({
            let matched = decision(seq![rule], f, order).matched is Some;
            match c {
                Criterion::Method(methods) => matched <==> (exists|i: int|
                    0 <= i < methods@.len() && #[trigger] methods@[i]@ == f.method),
                Criterion::Host(host) => matched <==> host@ == f.host,
                Criterion::PathPrefix(prefix) => matched <==> (prefix@.len() <= f.path.len()
                    && f.path.take(prefix@.len() as int) == prefix@),
                Criterion::PathMatches(re) => matched <==> pattern::pattern_matches(re, f.path),
                _ => true,
            }
        }),
{
    lemma_only_criterion(rule, c, f, order);
    match c {
        Criterion::Method(methods) => {
            let all = text::texts(methods@);
            if exists|i: int| 0 <= i < methods@.len() && #[trigger] methods@[i]@ == f.method {
                let i = choose|i: int|
                    0 <= i < methods@.len() && #[trigger] methods@[i]@ == f.method;
                assert(all[i] == f.method);
            }
            if all.contains(f.method) {
                let i = choose|i: int| 0 <= i < all.len() && all[i] == f.method;
                assert(methods@[i]@ == f.method);
            }
        },
        Criterion::PathPrefix(prefix) => {
            let n = prefix@.len() as int;
            assert(f.path.take(n) =~= f.path.subrange(0, n));
        },
        _ => {},
    }
}

/// A rule for a header matches a request that has it with exactly this value.
pub proof fn law_a_rule_reads_a_header(
    rule: Rule,
    name: String,
    value: String,
    f: FactsView,
    order: Seq<Seq<char>>,
)
    requires
        rule.criteria@ == seq![Criterion::Header { name, value }],
    ensures
        (decision(seq![rule], f, order).matched is Some) <==> (f.headers.dom().contains(name@)
            && f.headers.index(name@) == value@),
{
    lemma_only_criterion(rule, Criterion::Header { name, value }, f, order);
}

/// A rule for who asks matches a signed-in caller or one who is not, this subject, a member of
/// this group, or a holder of this role, as its check says. A check against a capture with no
/// pattern before it matches nobody.
pub proof fn law_a_rule_reads_who_asks(rule: Rule, check: SubjectCheck, f: FactsView, order: Seq<Seq<char>>)
    requires
        rule.criteria@ == seq![Criterion::Subject(check)],
    ensures
        ({
            let matched = decision(seq![rule], f, order).matched is Some;
            &&& check is Authenticated ==> (matched <==> f.subject is Some)
            &&& check is Anonymous ==> (matched <==> f.subject is None)
            &&& check is Is ==> (matched <==> (f.subject is Some && f.subject->0
                == check->Is_0@))
            &&& check is InGroup ==> (matched <==> (exists|i: int|
                0 <= i < f.groups.len() && #[trigger] f.groups[i] == check->InGroup_0@))
            &&& check is HasRole ==> (matched <==> (exists|i: int|
                0 <= i < f.roles.len() && #[trigger] f.roles[i] == check->HasRole_0@))
            &&& check is EqualsCapture ==> !matched
        }),
{
    lemma_only_criterion(rule, Criterion::Subject(check), f, order);
    if check is EqualsCapture {
        assert(bound_before(rule.criteria@, 0, check->EqualsCapture_0@, f.path) is None);
    }
    if check is InGroup && f.groups.contains(check->InGroup_0@) {
        let i = choose|i: int| 0 <= i < f.groups.len() && f.groups[i] == check->InGroup_0@;
        assert(f.groups[i] == check->InGroup_0@);
    }
    if check is HasRole && f.roles.contains(check->HasRole_0@) {
        let i = choose|i: int| 0 <= i < f.roles.len() && f.roles[i] == check->HasRole_0@;
        assert(f.roles[i] == check->HasRole_0@);
    }
}

/// A rule that compares the subject with a capture matches the subject whom the pattern before the
/// check captured in the path, and nobody else; of two patterns the nearer one that captured
/// anything counts.
pub proof fn law_a_capture_names_the_subject(
    rule: Rule,
    far: regex::Regex,
    near: regex::Regex,
    name: String,
    f: FactsView,
    order: Seq<Seq<char>>,
)
    requires
        rule.criteria@ == seq![
            Criterion::PathMatches(far),
            Criterion::PathMatches(near),
            Criterion::Subject(SubjectCheck::EqualsCapture(name)),
        ],
    ensures
        ({
            let matched = decision(seq![rule], f, order).matched is Some;
            let nearer = pattern::pattern_group(near, f.path, name@);
            let farther = pattern::pattern_group(far, f.path, name@);
            &&& matched ==> pattern::pattern_matches(far, f.path) && pattern::pattern_matches(
                near,
                f.path,
            ) && f.subject is Some
            &&& matched && nearer is Some ==> f.subject == nearer
            &&& matched && nearer is None ==> f.subject == farther
            &&& pattern::pattern_matches(far, f.path) && pattern::pattern_matches(near, f.path)
                && f.subject is Some && (nearer == f.subject || (nearer is None && farther
                == f.subject)) ==> matched
        }),
{
    lemma_single(rule, f, order);
    let c = rule.criteria@;
    assert(c.len() == 3);
    assert(c[0] == Criterion::PathMatches(far));
    assert(c[1] == Criterion::PathMatches(near));
    assert(c[2] == Criterion::Subject(SubjectCheck::EqualsCapture(name)));
    assert(bound_before(c, 0, name@, f.path) is None);
    assert(bound_before(c, 1, name@, f.path) == pattern::pattern_group(far, f.path, name@));
    assert(bound_before(c, 2, name@, f.path) == (match pattern::pattern_group(near, f.path, name@) {
        Some(value) => Some(value),
        None => bound_before(c, 1, name@, f.path),
    }));
    if rule_matches(rule, f, order) {
        assert(meets_at(c, 0, f, order));
        assert(meets_at(c, 1, f, order));
        assert(meets_at(c, 2, f, order));
    } else {
        assert(!meets_at(c, 0, f, order) || !meets_at(c, 1, f, order) || !meets_at(
            c,
            2,
            f,
            order,
        ));
    }
}

/// A rule for a class, and a step-up to one, are met by the session of that class and of every
/// class behind it in the order, and by no other. A step-up that is not met asks for the class.
pub proof fn law_a_class_is_met_by_itself_and_those_above(
    floor: Rule,
    step: Rule,
    required: String,
    asked: String,
    f: FactsView,
    order: Seq<Seq<char>>,
    have: int,
    want: int,
)
    requires
        floor.criteria@ == seq![Criterion::AcrAtLeast(required)],
        step.criteria@.len() == 0,
        step.action == (Action::StepUp { acr: asked }),
        asked@ == required@,
        forall|i: int, j: int|
            0 <= i < order.len() && 0 <= j < order.len() && order[i] == order[j] ==> i == j,
    ensures
        f.acr is None ==> decision(seq![floor], f, order).matched is None,
        f.acr == Some(required@) ==> decision(seq![floor], f, order).matched is Some,
        f.acr is Some && 0 <= have < order.len() && 0 <= want < order.len() && order[have]
            == f.acr->0 && order[want] == required@ ==> ((decision(seq![floor], f, order).matched
            is Some) <==> have >= want),
        f.acr is Some && f.acr->0 != required@ && !(order.contains(f.acr->0) && order.contains(
            required@,
        )) ==> decision(seq![floor], f, order).matched is None,
        (decision(seq![step], f, order).action is Allow) <==> (decision(
            seq![floor],
            f,
            order,
        ).matched is Some),
        !(decision(seq![step], f, order).action is Allow) ==> decision(seq![step], f, order).action
            == (ActionView::StepUp { acr: required@ }),
        decision(seq![step], f, order).matched == Some(step.name@),
{
    lemma_only_criterion(floor, Criterion::AcrAtLeast(required), f, order);
    assert(decides(seq![step], 0, f, order));
    law_the_first_match_decides(seq![step], 0, f, order);
    if f.acr is Some {
        step_up::lemma_rank(order, f.acr->0);
        step_up::lemma_rank(order, required@);
    }
}

/// The rules read each fact of a request in its own place.
pub proof fn law_facts_are_read_as_they_are(f: RequestFacts)
    ensures
        f@.method == f.method@,
        f@.host == f.host@,
        f@.path == f.path@,
        f@.headers == f.headers@,
        f.subject matches Some(s) ==> f@.subject == Some(s@),
        f.subject is None ==> f@.subject is None,
        f@.groups.len() == f.groups@.len(),
        forall|i: int| 0 <= i < f.groups@.len() ==> #[trigger] f@.groups[i] == f.groups@[i]@,
        f@.roles.len() == f.roles@.len(),
        forall|i: int| 0 <= i < f.roles@.len() ==> #[trigger] f@.roles[i] == f.roles@[i]@,
        f.acr matches Some(s) ==> f@.acr == Some(s@),
        f.acr is None ==> f@.acr is None,
        no_facts().subject is None && no_facts().acr is None,
        no_facts().groups.len() == 0 && no_facts().roles.len() == 0,
        forall|name: Seq<char>| !#[trigger] no_facts().headers.contains_key(name),
{
}

/// A check, an action and a criterion are each evaluated as the one that they are.
pub proof fn law_a_rule_is_evaluated_as_it_is(rule: Rule)
    ensures
        rule@.name == rule.name@,
        rule@.criteria.len() == rule.criteria@.len(),
        rule@.action is Allow <==> rule.action is Allow,
        rule@.action is Deny <==> rule.action is Deny,
        rule.action matches Action::StepUp { acr } ==> rule@.action == (ActionView::StepUp { acr: acr@ }),
        forall|i: int|
            0 <= i < rule.criteria@.len() ==> match #[trigger] rule.criteria@[i] {
                Criterion::Host(host) => rule@.criteria[i] == CriterionView::Host(host@),
                Criterion::PathPrefix(prefix) => rule@.criteria[i] == CriterionView::PathPrefix(prefix@),
                Criterion::Subject(SubjectCheck::Authenticated) => rule@.criteria[i]
                    == CriterionView::Subject(SubjectCheckView::Authenticated),
                Criterion::Subject(SubjectCheck::Anonymous) => rule@.criteria[i]
                    == CriterionView::Subject(SubjectCheckView::Anonymous),
                Criterion::Subject(SubjectCheck::Is(s)) => rule@.criteria[i] == CriterionView::Subject(
                    SubjectCheckView::Is(s@),
                ),
                Criterion::AcrAtLeast(acr) => rule@.criteria[i] == CriterionView::AcrAtLeast(acr@),
                _ => true,
            },
{
}

} // verus!
