//! Trusted-header sign-on for a forward-auth surface.
//!
//! A reverse proxy asks whether to let a request through. Where the answer is yes, the upstream
//! application is told who the caller is in headers that it trusts: `Remote-User`,
//! `Remote-Groups`, `Remote-Email` and `Remote-Name`. Two things make that safe, and both are
//! stated here. Nothing is forwarded unless the decision was to allow. And nothing that the
//! client sent under one of those names decides anything: such headers are taken out before a
//! rule is evaluated, and the adapter is told which to delete.

use std::sync::Arc;

use vstd::prelude::*;

use crate::headers::Headers;
use crate::reply;
use crate::rules;
use crate::rules::{Action, Decision, Explanation, RequestFacts, RuleSet};
use crate::text;

verus! {

// ---------------------------------------------------------------------------
// Reserved names
// ---------------------------------------------------------------------------

/// The names reserved for the authenticator, as they are emitted.
pub open spec fn trusted_names() -> Seq<Seq<char>> {
    seq!["Remote-User"@, "Remote-Groups"@, "Remote-Email"@, "Remote-Name"@]
}

/// The names reserved for the authenticator, as they are emitted.
pub fn trusted_header_names() -> (r: Vec<&'static str>)
    ensures
        crate::step_up::strs(r@) == trusted_names(),
{
    let r: Vec<&'static str> = vec!["Remote-User", "Remote-Groups", "Remote-Email", "Remote-Name"];
    assert(crate::step_up::strs(r@) =~= trusted_names());
    r
}

/// What a character of a header name is compared as: lower case, an underscore as a hyphen.
pub open spec fn folded(c: char) -> char {
    if c == '_' {
        '-'
    } else {
        text::lower_char(c)
    }
}

/// What a header name is compared as. To many upstreams `Remote_User` and `Remote-User` are one
/// variable, and a parser may trim.
pub open spec fn canonical(name: Seq<char>) -> Seq<char> {
    text::trim(name).map_values(|c: char| folded(c))
}

/// The name is reserved for the authenticator.
pub open spec fn reserved(name: Seq<char>) -> bool {
    exists|i: int|
        0 <= i < trusted_names().len() && canonical(#[trigger] trusted_names()[i]) == canonical(name)
}

/// The form in which a header name is compared: trimmed, in lower case, with hyphens for
/// underscores.
pub fn canonical_header_name(name: &str) -> (r: String)
    ensures
        r@ == canonical(name@),
{
    let t: String = text::trimmed(name);
    let v: Vec<char> = text::chars_of(t.as_str());
    let mut r: String = String::new();
    let mut i: usize = 0;
    while i < v.len()
        invariant
            v@ == text::trim(name@),
            i <= v@.len(),
            r@ == canonical(name@).take(i as int),
        decreases v@.len() - i,
    {
        assert(canonical(name@).take(i + 1) =~= canonical(name@).take(i as int).push(
            folded(v@[i as int]),
        ));
        if v[i] == '_' {
            r.push('-');
        } else {
            r.push(text::to_lower_char(v[i]));
        }
        i = i + 1;
    }
    assert(canonical(name@).take(v@.len() as int) =~= canonical(name@));
    r
}

/// Whether `name` is reserved for the authenticator.
pub fn is_trusted_header(name: &str) -> (r: bool)
    ensures
        r == reserved(name@),
{
    let mine: String = canonical_header_name(name);
    let names = trusted_header_names();
    let mut i: usize = 0;
    while i < names.len()
        invariant
            i <= names@.len(),
            crate::step_up::strs(names@) == trusted_names(),
            mine@ == canonical(name@),
            forall|k: int|
                0 <= k < i ==> canonical(#[trigger] trusted_names()[k]) != canonical(name@),
        decreases names@.len() - i,
    {
        assert(names@[i as int]@ == crate::step_up::strs(names@)[i as int]);
        if text::same(canonical_header_name(names[i]).as_str(), mine.as_str()) {
            assert(canonical(trusted_names()[i as int]) == canonical(name@));
            return true;
        }
        i = i + 1;
    }
    false
}

// ---------------------------------------------------------------------------
// Identities
// ---------------------------------------------------------------------------

/// Why an identity cannot be sent to an upstream.
#[derive(Debug, PartialEq, Eq)]
pub enum IdentityError {
    /// A field holds a control character, which would split the header that carries it.
    ControlCharacter { field: &'static str },
    /// A group name holds the separator of the list of groups.
    SeparatorInGroup { group: String },
    /// The subject is empty.
    EmptySubject,
}

/// The model of an [`IdentityError`].
pub enum IdentityErrorView {
    ControlCharacter { field: Seq<char> },
    SeparatorInGroup { group: Seq<char> },
    EmptySubject,
}

impl View for IdentityError {
    type V = IdentityErrorView;

    open spec fn view(&self) -> IdentityErrorView {
        match self {
            IdentityError::ControlCharacter { field } => IdentityErrorView::ControlCharacter {
                field: field@,
            },
            IdentityError::SeparatorInGroup { group } => IdentityErrorView::SeparatorInGroup {
                group: group@,
            },
            IdentityError::EmptySubject => IdentityErrorView::EmptySubject,
        }
    }
}

/// What the authenticator knows of the caller. It is built from the session, never from the
/// request.
#[derive(Debug, PartialEq, Eq)]
pub struct Identity {
    /// The subject.
    pub user: String,
    /// The groups of the subject. A group name holds no comma.
    pub groups: Vec<String>,
    /// The roles of the subject.
    pub roles: Vec<String>,
    /// The verified email address, if there is one.
    pub email: Option<String>,
    /// The display name, if there is one.
    pub name: Option<String>,
    /// The context class that the session achieved, if it is known. Without one no step-up is
    /// met.
    pub acr: Option<String>,
}

impl Default for Identity {
    fn default() -> (r: Identity)
        ensures
            r.user@.len() == 0,
            r.groups@.len() == 0,
            r.roles@.len() == 0,
            r.email is None,
            r.name is None,
            r.acr is None,
    {
        Identity {
            user: String::new(),
            groups: Vec::new(),
            roles: Vec::new(),
            email: None,
            name: None,
            acr: None,
        }
    }
}

/// The first problem in a list of groups.
pub open spec fn group_problem(groups: Seq<Seq<char>>) -> Option<IdentityErrorView>
    decreases groups.len(),
{
    if groups.len() == 0 {
        None
    } else if text::has_control(groups[0]) {
        Some(IdentityErrorView::ControlCharacter { field: "groups"@ })
    } else if groups[0].contains(',') {
        Some(IdentityErrorView::SeparatorInGroup { group: groups[0] })
    } else {
        group_problem(groups.skip(1))
    }
}

/// Some text in the list holds a control character.
pub open spec fn any_has_control(list: Seq<Seq<char>>) -> bool {
    exists|i: int| 0 <= i < list.len() && text::has_control(#[trigger] list[i])
}

/// The optional text holds a control character.
pub open spec fn opt_has_control(o: Option<Seq<char>>) -> bool {
    match o {
        Some(s) => text::has_control(s),
        None => false,
    }
}

impl Identity {
    /// The first problem of this identity: the subject, then the groups, the roles, the email
    /// address and the name.
    pub open spec fn problem(&self) -> Option<IdentityErrorView> {
        if self.user@.len() == 0 {
            Some(IdentityErrorView::EmptySubject)
        } else if text::has_control(self.user@) {
            Some(IdentityErrorView::ControlCharacter { field: "user"@ })
        } else if group_problem(text::texts(self.groups@)) is Some {
            group_problem(text::texts(self.groups@))
        } else if any_has_control(text::texts(self.roles@)) {
            Some(IdentityErrorView::ControlCharacter { field: "roles"@ })
        } else if opt_has_control(text::opt_text(self.email)) {
            Some(IdentityErrorView::ControlCharacter { field: "email"@ })
        } else if opt_has_control(text::opt_text(self.name)) {
            Some(IdentityErrorView::ControlCharacter { field: "name"@ })
        } else {
            None
        }
    }

    /// Whether this identity can be sent in headers, and the first problem where it cannot.
    pub fn validate(&self) -> (r: Result<(), IdentityError>)
        ensures
            match r {
                Ok(_) => self.problem() is None,
                Err(e) => self.problem() == Some(e@),
            },
    {
        if self.user.as_str().is_empty() {
            return Err(IdentityError::EmptySubject);
        }
        if text::any_control(self.user.as_str()) {
            return Err(IdentityError::ControlCharacter { field: "user" });
        }
        let ghost groups = text::texts(self.groups@);
        let mut i: usize = 0;
        assert(groups.skip(0) =~= groups);
        while i < self.groups.len()
            invariant
                i <= self.groups@.len(),
                groups == text::texts(self.groups@),
                group_problem(groups) == group_problem(groups.skip(i as int)),
                self.user@.len() != 0,
                !text::has_control(self.user@),
            decreases self.groups@.len() - i,
        {
            assert(groups.skip(i as int)[0] == self.groups@[i as int]@);
            if text::any_control(self.groups[i].as_str()) {
                return Err(IdentityError::ControlCharacter { field: "groups" });
            }
            if text::contains_char(self.groups[i].as_str(), ',') {
                return Err(IdentityError::SeparatorInGroup { group: self.groups[i].clone() });
            }
            assert(groups.skip(i as int).skip(1) =~= groups.skip(i + 1));
            i = i + 1;
        }
        let mut j: usize = 0;
        while j < self.roles.len()
            invariant
                j <= self.roles@.len(),
                self.user@.len() != 0,
                !text::has_control(self.user@),
                group_problem(text::texts(self.groups@)) is None,
                forall|k: int|
                    0 <= k < j ==> !text::has_control(#[trigger] text::texts(self.roles@)[k]),
            decreases self.roles@.len() - j,
        {
            if text::any_control(self.roles[j].as_str()) {
                assert(text::has_control(text::texts(self.roles@)[j as int]));
                return Err(IdentityError::ControlCharacter { field: "roles" });
            }
            j = j + 1;
        }
        match &self.email {
            Some(email) => {
                if text::any_control(email.as_str()) {
                    return Err(IdentityError::ControlCharacter { field: "email" });
                }
            },
            None => {},
        }
        match &self.name {
            Some(name) => {
                if text::any_control(name.as_str()) {
                    return Err(IdentityError::ControlCharacter { field: "name" });
                }
            },
            None => {},
        }
        Ok(())
    }
}

/// A header that is sent only where it has a value.
pub open spec fn if_present(name: Seq<char>, value: Option<Seq<char>>) -> Seq<(Seq<char>, Seq<char>)> {
    match value {
        Some(v) => seq![(name, v)],
        None => Seq::empty(),
    }
}

/// The headers that an upstream receives for an identity. What the identity does not have is left
/// out, so that an upstream can tell it from an empty value.
pub open spec fn upstream(identity: Identity) -> Seq<(Seq<char>, Seq<char>)> {
    seq![
        ("Remote-User"@, identity.user@),
        ("Remote-Groups"@, text::join(text::texts(identity.groups@), ","@)),
    ] + if_present("Remote-Email"@, text::opt_text(identity.email)) + if_present(
        "Remote-Name"@,
        text::opt_text(identity.name),
    )
}

/// The headers that an upstream receives for `identity`, without asking whether it should.
pub fn upstream_headers_for(identity: &Identity) -> (r: Vec<(String, String)>)
    ensures
        reply::pairs(r@) == upstream(*identity),
{
    let mut r: Vec<(String, String)> = Vec::new();
    reply::add_header(&mut r, "Remote-User", identity.user.as_str());
    let groups: String = text::joined(&identity.groups, ",");
    reply::add_header(&mut r, "Remote-Groups", groups.as_str());
    let ghost both = seq![
        ("Remote-User"@, identity.user@),
        ("Remote-Groups"@, text::join(text::texts(identity.groups@), ","@)),
    ];
    assert(reply::pairs(r@) =~= both);
    match &identity.email {
        Some(email) => reply::add_header(&mut r, "Remote-Email", email.as_str()),
        None => {},
    }
    let ghost three = both + if_present("Remote-Email"@, text::opt_text(identity.email));
    assert(reply::pairs(r@) =~= three);
    match &identity.name {
        Some(name) => reply::add_header(&mut r, "Remote-Name", name.as_str()),
        None => {},
    }
    assert(reply::pairs(r@) =~= upstream(*identity));
    r
}

// ---------------------------------------------------------------------------
// Stripping
// ---------------------------------------------------------------------------

/// The headers without those of a reserved name.
pub open spec fn unreserved(m: Map<Seq<char>, Seq<char>>) -> Map<Seq<char>, Seq<char>> {
    Map::new(|name: Seq<char>| m.contains_key(name) && !reserved(name), |name: Seq<char>| m[name])
}

/// The facts without the headers of a reserved name.
pub open spec fn sanitised(f: rules::FactsView) -> rules::FactsView {
    rules::FactsView { headers: unreserved(f.headers), ..f }
}

/// `list` holds the reserved names among those of `m`, each once, in ascending order.
pub open spec fn lists_reserved(list: Seq<Seq<char>>, m: Map<Seq<char>, Seq<char>>) -> bool {
    &&& text::ascending(list)
    &&& forall|name: Seq<char>| #[trigger]
        list.contains(name) <==> m.contains_key(name) && reserved(name)
}

/// Takes the headers of a reserved name out of `facts`, and returns their names as the client
/// spelled them, in ascending order.
pub fn strip_trusted_headers(facts: RequestFacts) -> (r: (RequestFacts, Vec<String>))
    ensures
        r.0@ == sanitised(facts@),
        lists_reserved(text::texts(r.1@), facts@.headers),
{
    let mut facts = facts;
    let ghost given = facts@;
    let keys: Vec<String> = facts.headers.keys();
    let ghost all = text::texts(keys@);
    let mut found: Vec<String> = Vec::new();
    let mut i: usize = 0;
    assert(facts.headers@ =~= Map::new(
        |name: Seq<char>|
            given.headers.contains_key(name) && !(reserved(name) && all.take(0).contains(name)),
        |name: Seq<char>| given.headers[name],
    ));
    assert(text::texts(found@) =~= Seq::<Seq<char>>::empty());
    while i < keys.len()
        invariant
            i <= keys@.len(),
            all == text::texts(keys@),
            text::ascending(all),
            forall|name: Seq<char>|
                all.contains(name) <==> #[trigger] given.headers.contains_key(name),
            facts@ == (rules::FactsView { headers: facts@.headers, ..given }),
            facts@.headers == Map::new(
                |name: Seq<char>|
                    given.headers.contains_key(name) && !(reserved(name) && all.take(
                        i as int,
                    ).contains(name)),
                |name: Seq<char>| given.headers[name],
            ),
            text::ascending(text::texts(found@)),
            forall|name: Seq<char>| #[trigger]
                text::texts(found@).contains(name) <==> all.take(i as int).contains(name)
                    && reserved(name),
        decreases keys@.len() - i,
    {
        let ghost seen = all.take(i as int);
        let ghost this = all[i as int];
        let ghost before = text::texts(found@);
        assert(keys@[i as int]@ == this);
        assert(all.take(i + 1) =~= seen.push(this));
        assert forall|name: Seq<char>| #[trigger] all.take(i + 1).contains(name) <==> (
        seen.contains(name) || name == this) by {
            if seen.contains(name) {
                let k = choose|k: int| 0 <= k < seen.len() && seen[k] == name;
                assert(all.take(i + 1)[k] == name);
            }
            if name == this {
                assert(all.take(i + 1)[i as int] == name);
            }
        }
        if is_trusted_header(keys[i].as_str()) {
            facts.headers.remove(keys[i].as_str());
            text::insert_ascending(&mut found, keys[i].clone());
        }
        assert(facts@.headers =~= Map::new(
            |name: Seq<char>|
                given.headers.contains_key(name) && !(reserved(name) && all.take(
                    i + 1,
                ).contains(name)),
            |name: Seq<char>| given.headers[name],
        ));
        i = i + 1;
    }
    assert(all.take(all.len() as int) =~= all);
    assert(facts@.headers =~= unreserved(given.headers));
    (facts, found)
}

// ---------------------------------------------------------------------------
// Deciding
// ---------------------------------------------------------------------------

/// What a forward-auth surface answers.
#[derive(Debug, PartialEq, Eq)]
pub struct ForwardAuthOutcome {
    /// The decision.
    pub decision: Decision,
    /// The headers to add to the upstream request. None, unless the decision was to allow.
    pub upstream_headers: Vec<(String, String)>,
    /// The names that the adapter must delete from the forwarded request.
    pub must_delete: Vec<String>,
    /// Why the identity cannot be sent to an upstream, where it cannot. The request is denied
    /// then.
    pub identity_rejected: Option<IdentityError>,
}

/// What the rules are evaluated against: the request without reserved headers, and the principal
/// as the identity states it, whatever the request says of it.
pub open spec fn principal_facts(f: rules::FactsView, identity: Option<&Identity>) -> rules::FactsView {
    rules::FactsView {
        method: f.method,
        host: f.host,
        path: f.path,
        headers: unreserved(f.headers),
        subject: match identity {
            Some(id) => Some(id.user@),
            None => None,
        },
        groups: match identity {
            Some(id) => text::texts(id.groups@),
            None => Seq::empty(),
        },
        roles: match identity {
            Some(id) => text::texts(id.roles@),
            None => Seq::empty(),
        },
        acr: match identity {
            Some(id) => text::opt_text(id.acr),
            None => None,
        },
    }
}

/// The problem of an identity, where there is one.
pub open spec fn identity_problem(identity: Option<&Identity>) -> Option<IdentityErrorView> {
    match identity {
        Some(id) => id.problem(),
        None => None,
    }
}

/// The decision of a surface over `set`: a denial where the identity cannot be sent, else that of
/// the rules.
pub open spec fn surface_decision(
    set: RuleSet,
    f: rules::FactsView,
    identity: Option<&Identity>,
) -> rules::DecisionView {
    if identity_problem(identity) is Some {
        rules::unmatched()
    } else {
        rules::decision(set.spec_rules(), principal_facts(f, identity), set.order())
    }
}

/// What the upstream is told: who the caller is where the request is allowed, and nothing
/// otherwise.
pub open spec fn surface_headers(
    set: RuleSet,
    f: rules::FactsView,
    identity: Option<&Identity>,
) -> Seq<(Seq<char>, Seq<char>)> {
    match identity {
        Some(id) => if surface_decision(set, f, identity).action is Allow {
            upstream(*id)
        } else {
            Seq::empty()
        },
        None => Seq::empty(),
    }
}

/// The model of an optional [`IdentityError`].
pub open spec fn opt_error(e: Option<IdentityError>) -> Option<IdentityErrorView> {
    match e {
        Some(x) => Some(x@),
        None => None,
    }
}

/// A forward-auth surface over a rule set. The rules cannot be taken out of it again, so that
/// what it takes out of a request is never skipped.
pub struct ForwardAuth {
    rules: Arc<RuleSet>,
}

impl ForwardAuth {
    /// The rule set of this surface.
    pub closed spec fn set(&self) -> RuleSet {
        *self.rules
    }

    /// A surface over `rules`.
    pub fn new(rules: RuleSet) -> (r: ForwardAuth)
        ensures
            r.set() == rules,
    {
        ForwardAuth { rules: Arc::new(rules) }
    }

    /// A surface over rules that other consumers hold too.
    pub fn over(rules: Arc<RuleSet>) -> (r: ForwardAuth)
        ensures
            r.set() == *rules,
    {
        ForwardAuth { rules }
    }

    /// What every rule says of a request, without its headers of a reserved name, as where it is
    /// decided. Nothing is decided by it.
    pub fn explain(&self, facts: &RequestFacts) -> (r: Explanation)
        ensures
            rules::explains(
                r.answers@,
                self.set().spec_rules(),
                sanitised(facts@),
                self.set().order(),
            ),
    {
        let stripped = strip_trusted_headers(facts.copied());
        self.rules.explain(&stripped.0)
    }

    /// Decides a request, and says what the upstream is told of it.
    pub fn evaluate(&self, facts: RequestFacts, identity: Option<&Identity>) -> (r:
        ForwardAuthOutcome)
        ensures
            r.decision@ == surface_decision(self.set(), facts@, identity),
            reply::pairs(r.upstream_headers@) == surface_headers(self.set(), facts@, identity),
            lists_reserved(text::texts(r.must_delete@), facts@.headers),
            opt_error(r.identity_rejected) == identity_problem(identity),
    {
        let ghost given = facts@;
        let stripped = strip_trusted_headers(facts);
        let mut facts: RequestFacts = stripped.0;
        let must_delete: Vec<String> = stripped.1;
        match identity {
            Some(id) => {
                match id.validate() {
                    Ok(_) => {},
                    Err(problem) => {
                        let none: Vec<(String, String)> = Vec::new();
                        assert(reply::pairs(none@) =~= Seq::empty());
                        return ForwardAuthOutcome {
                            decision: Decision::no_match(),
                            upstream_headers: none,
                            must_delete,
                            identity_rejected: Some(problem),
                        };
                    },
                }
                facts.subject = Some(id.user.clone());
                facts.groups = text::clone_texts(&id.groups);
                facts.roles = text::clone_texts(&id.roles);
                facts.acr = text::clone_opt(&id.acr);
            },
            None => {
                facts.subject = None;
                facts.groups = Vec::new();
                facts.roles = Vec::new();
                facts.acr = None;
                assert(text::texts(facts.groups@) =~= Seq::empty());
                assert(text::texts(facts.roles@) =~= Seq::empty());
            },
        }
        assert(facts@ =~= principal_facts(given, identity));
        let decision: Decision = self.rules.decide(&facts);
        let upstream_headers: Vec<(String, String)> = match (&decision.action, identity) {
            (Action::Allow, Some(id)) => upstream_headers_for(id),
            _ => Vec::new(),
        };
        assert(reply::pairs(upstream_headers@) =~= surface_headers(self.set(), given, identity));
        ForwardAuthOutcome { decision, upstream_headers, must_delete, identity_rejected: None }
    }
}

// ---------------------------------------------------------------------------
// Repeated headers
// ---------------------------------------------------------------------------

/// The values that stand under exactly this name, in order.
pub open spec fn values_of(headers: Seq<(Seq<char>, Seq<char>)>, name: Seq<char>) -> Seq<Seq<char>>
    decreases headers.len(),
{
    if headers.len() == 0 {
        Seq::empty()
    } else {
        let rest = values_of(headers.drop_last(), name);
        if headers.last().0 == name {
            rest.push(headers.last().1)
        } else {
            rest
        }
    }
}

/// The headers as one map: the values of a repeated name are joined, none is dropped.
pub open spec fn combined(headers: Seq<(Seq<char>, Seq<char>)>) -> Map<Seq<char>, Seq<char>> {
    Map::new(
        |name: Seq<char>| values_of(headers, name).len() > 0,
        |name: Seq<char>| text::join(values_of(headers, name), ", "@),
    )
}

/// Joins the values of repeated names, so that no order of headers decides which one a rule sees.
pub fn combine_repeated(headers: &[(String, String)]) -> (r: Headers)
    ensures
        r@ == combined(reply::pairs(headers@)),
{
    let ghost all = reply::pairs(headers@);
    let mut r: Headers = Headers::new();
    let mut i: usize = 0;
    assert(r@ =~= combined(all.take(0)));
    while i < headers.len()
        invariant
            i <= headers@.len(),
            all == reply::pairs(headers@),
            r@ == combined(all.take(i as int)),
        decreases headers@.len() - i,
    {
        let ghost seen = all.take(i as int);
        let ghost name = headers@[i as int].0@;
        let ghost value = headers@[i as int].1@;
        let ghost before = r@;
        let joined: String = match r.get(headers[i].0.as_str()) {
            Some(existing) => {
                let mut s: String = existing.clone();
                s.append(", ");
                s.append(headers[i].1.as_str());
                s
            },
            None => headers[i].1.clone(),
        };
        r.insert(headers[i].0.clone(), joined);
        proof {
            let next = all.take(i + 1);
            assert(next.drop_last() =~= seen);
            assert(next.last() == (name, value));
            let vs = values_of(seen, name);
            assert(values_of(next, name) == vs.push(value));
            assert(vs.push(value).drop_last() =~= vs);
            if vs.len() == 0 {
                assert(text::join(vs.push(value), ", "@) == value);
            } else {
                assert(text::join(vs.push(value), ", "@) == text::join(vs, ", "@) + ", "@ + value);
            }
            assert(r@ =~= combined(next));
        }
        i = i + 1;
    }
    assert(all.take(all.len() as int) =~= all);
    r
}

/// Builds the facts of a request from a proxy's description of it, without the headers of a
/// reserved name; returns these names too.
pub fn facts_from_proxy(method: &str, host: &str, path: &str, headers: Vec<(String, String)>) -> (r:
    (RequestFacts, Vec<String>))
    ensures
        r.0@ == (rules::FactsView {
            method: method@,
            host: host@,
            path: path@,
            headers: unreserved(combined(reply::pairs(headers@))),
            ..rules::no_facts()
        }),
        lists_reserved(text::texts(r.1@), combined(reply::pairs(headers@))),
{
    let mut facts = RequestFacts::default();
    facts.method = method.to_owned();
    facts.host = host.to_owned();
    facts.path = path.to_owned();
    facts.headers = combine_repeated(headers.as_slice());
    strip_trusted_headers(facts)
}

// ---------------------------------------------------------------------------
// Hosts
// ---------------------------------------------------------------------------

/// A colon at `p`, and nothing but digits behind it.
pub open spec fn port_at(host: Seq<char>, p: int) -> bool {
    &&& 0 <= p < host.len() - 1
    &&& host[p] == ':'
    &&& forall|k: int| p < k < host.len() ==> text::digit(#[trigger] host[k])
}

/// A host without its port.
pub open spec fn bare_host(host: Seq<char>) -> Seq<char> {
    if exists|p: int| #[trigger] port_at(host, p) {
        host.take(choose|p: int| #[trigger] port_at(host, p))
    } else {
        host
    }
}

/// The text is one host that a rule can be compared against.
pub open spec fn one_host(host: Seq<char>) -> bool {
    &&& host.len() > 0
    &&& !host.contains(',')
    &&& !text::has_control(host)
    &&& bare_host(host).len() > 0
}

proof fn lemma_port_unique(host: Seq<char>, p: int)
    requires
        port_at(host, p),
    ensures
        bare_host(host) == host.take(p),
{
    let q = choose|q: int| #[trigger] port_at(host, q);
    assert(port_at(host, q));
    if p < q {
        assert(text::digit(host[q]));
    } else if q < p {
        assert(text::digit(host[p]));
    }
}

/// The host without its port. A list of hosts is refused: to pick one would be a guess.
pub fn host_without_port(host: &str) -> (r: Result<String, DialectError>)
    ensures
        match r {
            Ok(bare) => one_host(host@) && bare@ == bare_host(host@),
            Err(e) => !one_host(host@) && e is MalformedHost,
        },
{
    if host.is_empty() || text::contains_char(host, ',') || text::any_control(host) {
        return Err(DialectError::MalformedHost);
    }
    let v: Vec<char> = text::chars_of(host);
    let n: usize = v.len();
    let mut p: usize = n;
    while p > 0 && '0' <= v[p - 1] && v[p - 1] <= '9'
        invariant
            p <= n,
            n == v@.len(),
            forall|k: int| p <= k < n ==> text::digit(#[trigger] v@[k]),
        decreases p,
    {
        p = p - 1;
    }
    let cut: usize = if p > 0 && p < n && v[p - 1] == ':' {
        proof {
            assert(port_at(host@, p - 1));
            lemma_port_unique(host@, p - 1);
        }
        p - 1
    } else {
        proof {
            if exists|q: int| #[trigger] port_at(host@, q) {
                let q = choose|q: int| #[trigger] port_at(host@, q);
                assert(port_at(host@, q));
                if q < p - 1 {
                    assert(text::digit(host@[p - 1]));
                } else if q >= p {
                    assert(text::digit(host@[q]));
                }
            }
        }
        n
    };
    assert(v@.subrange(0, cut as int) =~= v@.take(cut as int));
    assert(v@.take(n as int) =~= v@);
    if cut == 0 {
        return Err(DialectError::MalformedHost);
    }
    Ok(text::string_of_range(&v, 0, cut))
}

// ---------------------------------------------------------------------------
// Dialects
// ---------------------------------------------------------------------------

/// How a proxy describes the request that it asks about. A dialect reads its own headers and no
/// others: one that the proxy neither sets nor strips could be supplied by the client.
#[derive(Debug, Clone, Copy, PartialEq, Eq, Structural)]
pub enum Dialect {
    /// Traefik and Caddy: `X-Forwarded-Method`, `X-Forwarded-Host`, `X-Forwarded-Uri`.
    ForwardAuth,
    /// nginx `auth_request`: `X-Original-Method`, `X-Original-URI`, and the inherited `Host`.
    NginxAuthRequest,
    /// Envoy and Istio `ext_authz`: the method and the path of the check request itself, and its
    /// `Host`.
    EnvoyExtAuthz,
    /// `HAProxy`: `X-Forwarded-Method`, `X-Forwarded-Host`, `X-Forwarded-Uri`.
    Haproxy,
}

/// Whether the check request came through a hop that the operator trusts.
#[derive(Debug, Clone, Copy, PartialEq, Eq, Structural)]
pub enum ProxyHop {
    /// The immediate peer is a configured proxy.
    Trusted,
    /// It is not, or that could not be told.
    Untrusted,
}

/// Why a check request could not be turned into facts.
#[derive(Debug, PartialEq, Eq)]
pub enum DialectError {
    /// Nothing that the request says of the original one can be believed.
    UntrustedHop,
    /// A header that the dialect needs is absent.
    Missing { header: &'static str },
    /// A header that the dialect needs came more than once, with different values.
    Conflicting { header: &'static str },
    /// The original URI is not one that a path rule can be evaluated against.
    MalformedUri,
    /// The original host is not one host.
    MalformedHost,
}

/// The model of a [`DialectError`].
pub enum DialectErrorView {
    UntrustedHop,
    Missing { header: Seq<char> },
    Conflicting { header: Seq<char> },
    MalformedUri,
    MalformedHost,
}

impl View for DialectError {
    type V = DialectErrorView;

    open spec fn view(&self) -> DialectErrorView {
        match self {
            DialectError::UntrustedHop => DialectErrorView::UntrustedHop,
            DialectError::Missing { header } => DialectErrorView::Missing { header: header@ },
            DialectError::Conflicting { header } => DialectErrorView::Conflicting {
                header: header@,
            },
            DialectError::MalformedUri => DialectErrorView::MalformedUri,
            DialectError::MalformedHost => DialectErrorView::MalformedHost,
        }
    }
}

/// The values that stand under a name, upper and lower case being one, in order.
pub open spec fn matching(headers: Seq<(Seq<char>, Seq<char>)>, name: Seq<char>) -> Seq<Seq<char>>
    decreases headers.len(),
{
    if headers.len() == 0 {
        Seq::empty()
    } else {
        let rest = matching(headers.drop_last(), name);
        if text::lower(headers.last().0) == text::lower(name) {
            rest.push(headers.last().1)
        } else {
            rest
        }
    }
}

/// All values are the same.
pub open spec fn agree(values: Seq<Seq<char>>) -> bool {
    forall|i: int| 0 <= i < values.len() ==> #[trigger] values[i] == values[0]
}

/// What is read under a name: the one value that stands there.
pub open spec fn read(headers: Seq<(Seq<char>, Seq<char>)>, name: Seq<char>) -> Result<
    Seq<char>,
    DialectErrorView,
> {
    let values = matching(headers, name);
    if !agree(values) {
        Err(DialectErrorView::Conflicting { header: name })
    } else if values.len() == 0 {
        Err(DialectErrorView::Missing { header: name })
    } else {
        Ok(values[0])
    }
}

/// How many characters stand before the query and the fragment.
pub open spec fn path_end(uri: Seq<char>) -> nat
    decreases uri.len(),
{
    if uri.len() == 0 || uri[0] == '?' || uri[0] == '#' {
        0
    } else {
        1 + path_end(uri.skip(1))
    }
}

/// A URI without its query and its fragment.
pub open spec fn path_of(uri: Seq<char>) -> Seq<char> {
    uri.take(path_end(uri) as int)
}

/// The most bytes a path may have.
pub const MAX_PATH_BYTES: usize = 4096;

/// A path that a rule can decide. An encoded path is not: an origin may decode it to another one.
pub open spec fn decidable(path: Seq<char>) -> bool {
    &&& path.len() > 0 && path[0] == '/'
    &&& !text::occurs(path, ".."@)
    &&& !path.contains('%')
    &&& !text::has_control(path)
    &&& text::byte_len(path) <= MAX_PATH_BYTES
}

/// What a dialect reads of the original request: the method, the host and the path.
pub struct Described {
    pub method: Seq<char>,
    pub host: Seq<char>,
    pub path: Seq<char>,
}

impl Dialect {
    /// The header that carries the original method.
    pub open spec fn spec_method_header(self) -> Option<Seq<char>> {
        match self {
            Dialect::ForwardAuth | Dialect::Haproxy => Some("x-forwarded-method"@),
            Dialect::NginxAuthRequest => Some("x-original-method"@),
            Dialect::EnvoyExtAuthz => None,
        }
    }

    /// The header that carries the original URI.
    pub open spec fn spec_uri_header(self) -> Option<Seq<char>> {
        match self {
            Dialect::ForwardAuth | Dialect::Haproxy => Some("x-forwarded-uri"@),
            Dialect::NginxAuthRequest => Some("x-original-uri"@),
            Dialect::EnvoyExtAuthz => None,
        }
    }

    /// The header that carries the original host.
    pub open spec fn spec_host_header(self) -> Seq<char> {
        match self {
            Dialect::ForwardAuth | Dialect::Haproxy => "x-forwarded-host"@,
            Dialect::EnvoyExtAuthz | Dialect::NginxAuthRequest => "host"@,
        }
    }

    /// The header that carries the original method, if one does.
    pub fn method_header(self) -> (r: Option<&'static str>)
        ensures
            text::opt_str(r) == self.spec_method_header(),
    {
        match self {
            Dialect::ForwardAuth | Dialect::Haproxy => Some("x-forwarded-method"),
            Dialect::NginxAuthRequest => Some("x-original-method"),
            Dialect::EnvoyExtAuthz => None,
        }
    }

    /// The header that carries the original URI, if one does.
    pub fn uri_header(self) -> (r: Option<&'static str>)
        ensures
            text::opt_str(r) == self.spec_uri_header(),
    {
        match self {
            Dialect::ForwardAuth | Dialect::Haproxy => Some("x-forwarded-uri"),
            Dialect::NginxAuthRequest => Some("x-original-uri"),
            Dialect::EnvoyExtAuthz => None,
        }
    }

    /// The header that carries the original host.
    pub fn host_header(self) -> (r: &'static str)
        ensures
            r@ == self.spec_host_header(),
    {
        match self {
            Dialect::ForwardAuth | Dialect::Haproxy => "x-forwarded-host",
            Dialect::EnvoyExtAuthz | Dialect::NginxAuthRequest => "host",
        }
    }

    /// The original method: in its header, or the method of the check request.
    pub open spec fn original_method(
        self,
        check_method: Seq<char>,
        headers: Seq<(Seq<char>, Seq<char>)>,
    ) -> Result<Seq<char>, DialectErrorView> {
        match self.spec_method_header() {
            Some(name) => read(headers, name),
            None => Ok(check_method),
        }
    }

    /// The original URI: in its header, or the path of the check request.
    pub open spec fn original_uri(
        self,
        check_path: Seq<char>,
        headers: Seq<(Seq<char>, Seq<char>)>,
    ) -> Result<Seq<char>, DialectErrorView> {
        match self.spec_uri_header() {
            Some(name) => read(headers, name),
            None => Ok(check_path),
        }
    }

    /// What a check request says of the original one, or the first thing that is wrong with it.
    pub open spec fn described(
        self,
        hop: ProxyHop,
        check_method: Seq<char>,
        check_path: Seq<char>,
        headers: Seq<(Seq<char>, Seq<char>)>,
    ) -> Result<Described, DialectErrorView> {
        if hop is Untrusted {
            Err(DialectErrorView::UntrustedHop)
        } else {
            match (
                self.original_method(check_method, headers),
                self.original_uri(check_path, headers),
                read(headers, self.spec_host_header()),
            ) {
                (Err(e), _, _) => Err(e),
                (_, Err(e), _) => Err(e),
                (_, _, Err(e)) => Err(e),
                (Ok(method), Ok(uri), Ok(host)) => if !decidable(path_of(uri)) {
                    Err(DialectErrorView::MalformedUri)
                } else if !one_host(host) {
                    Err(DialectErrorView::MalformedHost)
                } else {
                    Ok(Described { method, host: bare_host(host), path: path_of(uri) })
                },
            }
        }
    }

    /// Turns a check request into facts, without the headers of a reserved name; returns these
    /// names too.
    pub fn describe(
        self,
        hop: ProxyHop,
        check_method: &str,
        check_path: &str,
        headers: &[(String, String)],
    ) -> (r: Result<(RequestFacts, Vec<String>), DialectError>)
        ensures
            match (
                r,
                self.described(hop, check_method@, check_path@, reply::pairs(headers@)),
            ) {
                (Ok(out), Ok(d)) => {
                    &&& out.0@ == (rules::FactsView {
                        method: d.method,
                        host: d.host,
                        path: d.path,
                        headers: unreserved(combined(reply::pairs(headers@))),
                        ..rules::no_facts()
                    })
                    &&& lists_reserved(
                        text::texts(out.1@),
                        combined(reply::pairs(headers@)),
                    )
                },
                (Err(e), Err(v)) => e@ == v,
                _ => false,
            },
    {
        match hop {
            ProxyHop::Untrusted => return Err(DialectError::UntrustedHop),
            ProxyHop::Trusted => {},
        }
        let method: String = match self.method_header() {
            Some(name) => match read_one(headers, name) {
                Ok(value) => value,
                Err(e) => return Err(e),
            },
            None => check_method.to_owned(),
        };
        let uri: String = match self.uri_header() {
            Some(name) => match read_one(headers, name) {
                Ok(value) => value,
                Err(e) => return Err(e),
            },
            None => check_path.to_owned(),
        };
        let host: String = match read_one(headers, self.host_header()) {
            Ok(value) => value,
            Err(e) => return Err(e),
        };
        let path: String = without_query(uri.as_str());
        if !is_decidable(path.as_str()) {
            return Err(DialectError::MalformedUri);
        }
        let bare: String = match host_without_port(host.as_str()) {
            Ok(bare) => bare,
            Err(e) => return Err(e),
        };
        let mut facts = RequestFacts::default();
        facts.method = method;
        facts.host = bare;
        facts.path = path;
        facts.headers = combine_repeated(headers);
        Ok(strip_trusted_headers(facts))
    }
}

/// Reads the one value under `name`.
fn read_one(headers: &[(String, String)], name: &'static str) -> (r: Result<String, DialectError>)
    ensures
        match (r, read(reply::pairs(headers@), name@)) {
            (Ok(value), Ok(v)) => value@ == v,
            (Err(e), Err(v)) => e@ == v,
            _ => false,
        },
{
    let ghost all = reply::pairs(headers@);
    let wanted: String = text::to_lower(name);
    let mut seen: Option<String> = None;
    let mut i: usize = 0;
    let mut conflict: bool = false;
    while i < headers.len()
        invariant
            i <= headers@.len(),
            all == reply::pairs(headers@),
            wanted@ == text::lower(name@),
            conflict == !agree(matching(all.take(i as int), name@)),
            match seen {
                Some(s) => matching(all.take(i as int), name@).len() > 0 && s@ == matching(
                    all.take(i as int),
                    name@,
                )[0],
                None => matching(all.take(i as int), name@).len() == 0,
            },
        decreases headers@.len() - i,
    {
        proof {
            assert(all.take(i + 1).drop_last() =~= all.take(i as int));
            assert(all.take(i + 1).last() == (headers@[i as int].0@, headers@[i as int].1@));
        }
        let ghost before = matching(all.take(i as int), name@);
        let ghost after = matching(all.take(i + 1), name@);
        if text::same(text::to_lower(headers[i].0.as_str()).as_str(), wanted.as_str()) {
            assert(after == before.push(headers@[i as int].1@));
            assert(forall|k: int| 0 <= k < before.len() ==> after[k] == before[k]);
            match &seen {
                Some(first) => {
                    if !text::same(first.as_str(), headers[i].1.as_str()) {
                        assert(after[before.len() as int] != after[0]);
                        conflict = true;
                    } else {
                        assert(agree(before) ==> agree(after));
                        assert(!agree(before) ==> !agree(after));
                    }
                },
                None => {
                    seen = Some(headers[i].1.clone());
                },
            }
        }
        i = i + 1;
    }
    assert(all.take(all.len() as int) =~= all);
    if conflict {
        return Err(DialectError::Conflicting { header: name });
    }
    match seen {
        Some(value) => Ok(value),
        None => Err(DialectError::Missing { header: name }),
    }
}

/// The URI without its query and its fragment.
fn without_query(uri: &str) -> (r: String)
    ensures
        r@ == path_of(uri@),
{
    let v: Vec<char> = text::chars_of(uri);
    let mut i: usize = 0;
    assert(v@.skip(0) =~= v@);
    while i < v.len() && v[i] != '?' && v[i] != '#'
        invariant
            i <= v@.len(),
            path_end(v@) == i + path_end(v@.skip(i as int)),
        decreases v@.len() - i,
    {
        assert(v@.skip(i as int).skip(1) =~= v@.skip(i + 1));
        i = i + 1;
    }
    assert(v@.subrange(0, i as int) =~= v@.take(i as int));
    text::string_of_range(&v, 0, i)
}

/// Whether a rule can decide the path.
fn is_decidable(path: &str) -> (r: bool)
    ensures
        r == decidable(path@),
{
    let v: Vec<char> = text::chars_of(path);
    if v.len() == 0 || v[0] != '/' || text::contains_text(path, "..") {
        return false;
    }
    if text::contains_char(path, '%') || text::any_control(path) {
        return false;
    }
    text::bytes_in(path) <= MAX_PATH_BYTES
}

// ---------------------------------------------------------------------------
// Laws
// ---------------------------------------------------------------------------

/// Two requests differ at most in headers of a reserved name.
pub open spec fn differ_in_reserved(a: rules::FactsView, b: rules::FactsView) -> bool {
    &&& a.method == b.method
    &&& a.host == b.host
    &&& a.path == b.path
    &&& forall|name: Seq<char>|
        !reserved(name) ==> (#[trigger] a.headers.contains_key(name) == b.headers.contains_key(name)
            && (a.headers.contains_key(name) ==> a.headers[name] == b.headers[name]))
}

/// Nothing that a client sends under a reserved name, in any spelling, and nothing that the
/// request says of its own principal changes the decision or what the upstream is told.
pub proof fn law_the_client_decides_nothing_reserved(
    set: RuleSet,
    a: rules::FactsView,
    b: rules::FactsView,
    identity: Option<&Identity>,
)
    requires
        differ_in_reserved(a, b),
    ensures
        surface_decision(set, a, identity) == surface_decision(set, b, identity),
        surface_headers(set, a, identity) == surface_headers(set, b, identity),
{
    assert(unreserved(a.headers) =~= unreserved(b.headers));
    assert(principal_facts(a, identity) =~= principal_facts(b, identity));
}

/// Nothing is forwarded unless the request is allowed and there is an identity, and what is
/// forwarded is that identity and nothing else.
pub proof fn law_only_an_allow_forwards(
    set: RuleSet,
    f: rules::FactsView,
    identity: Option<&Identity>,
)
    ensures
        !(surface_decision(set, f, identity).action is Allow) ==> surface_headers(set, f, identity)
            == Seq::<(Seq<char>, Seq<char>)>::empty(),
        identity is None ==> surface_headers(set, f, identity) == Seq::<
            (Seq<char>, Seq<char>),
        >::empty(),
        surface_headers(set, f, identity).len() > 0 ==> identity is Some && surface_headers(
            set,
            f,
            identity,
        ) == upstream(*identity->0),
{
}

/// The principal that the rules decide about is the one that the upstream is told of.
pub proof fn law_the_decided_principal_is_the_forwarded_one(
    set: RuleSet,
    f: rules::FactsView,
    identity: Option<&Identity>,
)
    requires
        surface_headers(set, f, identity).len() > 0,
    ensures
        surface_headers(set, f, identity)[0] == ("Remote-User"@, principal_facts(
            f,
            identity,
        ).subject->0),
        surface_headers(set, f, identity)[1] == (
            "Remote-Groups"@,
            text::join(principal_facts(f, identity).groups, ","@),
        ),
{
}

/// An identity that cannot be sent to an upstream is refused, whatever the rules say.
pub proof fn law_an_invalid_identity_is_denied(
    set: RuleSet,
    f: rules::FactsView,
    identity: Option<&Identity>,
)
    requires
        identity_problem(identity) is Some,
    ensures
        surface_decision(set, f, identity).action is Deny,
        surface_headers(set, f, identity) == Seq::<(Seq<char>, Seq<char>)>::empty(),
{
}

/// Every header that can be sent to an upstream has a reserved name.
pub proof fn law_every_emitted_name_is_reserved(identity: Identity, i: int)
    requires
        0 <= i < upstream(identity).len(),
    ensures
        reserved(upstream(identity)[i].0),
{
    let name = upstream(identity)[i].0;
    assert(trusted_names()[0] == "Remote-User"@);
    assert(trusted_names()[1] == "Remote-Groups"@);
    assert(trusted_names()[2] == "Remote-Email"@);
    assert(trusted_names()[3] == "Remote-Name"@);
}

/// The emitted names are distinct.
pub proof fn law_emitted_names_are_distinct(identity: Identity, i: int, k: int)
    requires
        0 <= i < k < upstream(identity).len(),
    ensures
        upstream(identity)[i].0 != upstream(identity)[k].0,
{
    reveal_strlit("Remote-User");
    reveal_strlit("Remote-Groups");
    reveal_strlit("Remote-Email");
    reveal_strlit("Remote-Name");
    assert("Remote-User"@.len() == 11 && "Remote-Groups"@.len() == 13);
    assert("Remote-Email"@.len() == 12 && "Remote-Name"@.len() == 11);
    assert("Remote-User"@[7] == 'U' && "Remote-Name"@[7] == 'N');
}

/// No element holds a comma.
pub open spec fn comma_free(list: Seq<Seq<char>>) -> bool {
    forall|i: int| 0 <= i < list.len() ==> !(#[trigger] list[i]).contains(',')
}

proof fn lemma_comma_free(groups: Seq<Seq<char>>)
    requires
        group_problem(groups) is None,
    ensures
        comma_free(groups),
    decreases groups.len(),
{
    if groups.len() > 0 {
        lemma_comma_free(groups.skip(1));
        assert forall|i: int| 0 <= i < groups.len() implies !(#[trigger] groups[i]).contains(',') by {
            if i > 0 {
                assert(groups.skip(1)[i - 1] == groups[i]);
            }
        }
    }
}

/// The last comma of a joined list stands right before the last element.
proof fn lemma_joined_tail(list: Seq<Seq<char>>)
    requires
        list.len() >= 2,
        comma_free(list),
    ensures
        ({
            let whole = text::join(list, ","@);
            let at = whole.len() - list.last().len() - 1;
            &&& 0 <= at < whole.len()
            &&& whole[at] == ','
            &&& forall|k: int| at < k < whole.len() ==> whole[k] != ','
            &&& whole.skip(at + 1) == list.last()
            &&& whole.take(at) == text::join(list.drop_last(), ","@)
        }),
{
    reveal_strlit(",");
    let whole = text::join(list, ","@);
    let head = text::join(list.drop_last(), ","@);
    let at = head.len() as int;
    assert(whole == head + ","@ + list.last());
    assert(","@.len() == 1);
    assert(whole.len() == head.len() + 1 + list.last().len());
    assert(whole[at] == ","@[0]);
    assert forall|k: int| at < k < whole.len() implies whole[k] != ',' by {
        assert(whole[k] == list.last()[k - at - 1]);
        assert(!list[list.len() - 1].contains(','));
    }
    assert(whole.skip(at + 1) =~= list.last());
    assert(whole.take(at) =~= head);
}

/// Two lists of names without commas are told apart by what they are joined to.
pub proof fn law_joined_groups_tell_lists_apart(a: Seq<Seq<char>>, b: Seq<Seq<char>>)
    requires
        a.len() > 0,
        b.len() > 0,
        comma_free(a),
        comma_free(b),
        text::join(a, ","@) == text::join(b, ","@),
    ensures
        a == b,
    decreases a.len(),
{
    let whole = text::join(a, ","@);
    if a.len() == 1 || b.len() == 1 {
        if a.len() >= 2 {
            lemma_joined_tail(a);
            let at = whole.len() - a.last().len() - 1;
            assert(whole == b[0]);
            assert(b[0].contains(',')) by {
                assert(b[0][at] == ',');
            }
        } else if b.len() >= 2 {
            lemma_joined_tail(b);
            let at = whole.len() - b.last().len() - 1;
            assert(whole == a[0]);
            assert(a[0].contains(',')) by {
                assert(a[0][at] == ',');
            }
        } else {
            assert(a =~= b);
        }
    } else {
        lemma_joined_tail(a);
        lemma_joined_tail(b);
        let p = whole.len() - a.last().len() - 1;
        let q = whole.len() - b.last().len() - 1;
        assert(p == q) by {
            if p < q {
                assert(whole[q] != ',');
            } else if q < p {
                assert(whole[p] != ',');
            }
        }
        assert forall|i: int| 0 <= i < a.drop_last().len() implies !(
        #[trigger] a.drop_last()[i]).contains(',') by {
            assert(a.drop_last()[i] == a[i]);
        }
        assert forall|i: int| 0 <= i < b.drop_last().len() implies !(
        #[trigger] b.drop_last()[i]).contains(',') by {
            assert(b.drop_last()[i] == b[i]);
        }
        law_joined_groups_tell_lists_apart(a.drop_last(), b.drop_last());
        assert(a =~= a.drop_last().push(a.last()));
        assert(b =~= b.drop_last().push(b.last()));
    }
}

/// No group name forges a membership: two valid identities that are in some group and are told
/// to an upstream by the same list are in the same groups.
pub proof fn law_a_group_name_forges_no_membership(a: Identity, b: Identity)
    requires
        a.problem() is None,
        b.problem() is None,
        a.groups@.len() > 0,
        b.groups@.len() > 0,
        upstream(a)[1] == upstream(b)[1],
    ensures
        text::texts(a.groups@) == text::texts(b.groups@),
{
    lemma_comma_free(text::texts(a.groups@));
    lemma_comma_free(text::texts(b.groups@));
    law_joined_groups_tell_lists_apart(text::texts(a.groups@), text::texts(b.groups@));
}

/// A request that did not come through a trusted hop is refused, whatever it says.
pub proof fn law_an_untrusted_hop_is_refused(
    dialect: Dialect,
    check_method: Seq<char>,
    check_path: Seq<char>,
    headers: Seq<(Seq<char>, Seq<char>)>,
)
    ensures
        dialect.described(ProxyHop::Untrusted, check_method, check_path, headers) == Err::<
            Described,
            DialectErrorView,
        >(DialectErrorView::UntrustedHop),
{
}

/// A path that reaches a rule begins with a slash, climbs nowhere, holds nothing encoded, no
/// query and no control character, and is bounded; and the host is a single one.
pub proof fn law_a_described_request_is_decidable(
    dialect: Dialect,
    hop: ProxyHop,
    check_method: Seq<char>,
    check_path: Seq<char>,
    headers: Seq<(Seq<char>, Seq<char>)>,
)
    requires
        dialect.described(hop, check_method, check_path, headers) is Ok,
    ensures
        ({
            let d = dialect.described(hop, check_method, check_path, headers)->Ok_0;
            &&& decidable(d.path)
            &&& !d.path.contains('?')
            &&& !d.path.contains('#')
            &&& d.host.len() > 0
            &&& !d.host.contains(',')
            &&& !text::has_control(d.host)
        }),
{
    let d = dialect.described(hop, check_method, check_path, headers)->Ok_0;
    let uri = dialect.original_uri(check_path, headers)->Ok_0;
    lemma_path_of(uri);
    let host = read(headers, dialect.spec_host_header())->Ok_0;
    if exists|p: int| #[trigger] port_at(host, p) {
        let p = choose|p: int| #[trigger] port_at(host, p);
        assert(port_at(host, p));
        assert(d.host == host.take(p));
        if d.host.contains(',') {
            let k = choose|k: int| 0 <= k < d.host.len() && d.host[k] == ',';
            assert(host[k] == ',');
        }
        if text::has_control(d.host) {
            let k = choose|k: int| 0 <= k < d.host.len() && text::control(#[trigger] d.host[k]);
            assert(text::control(host[k]));
        }
    }
}

proof fn lemma_path_of(uri: Seq<char>)
    ensures
        path_end(uri) <= uri.len(),
        !path_of(uri).contains('?'),
        !path_of(uri).contains('#'),
    decreases uri.len(),
{
    if uri.len() > 0 && uri[0] != '?' && uri[0] != '#' {
        let rest = uri.skip(1);
        lemma_path_of(rest);
        assert forall|k: int| 0 <= k < path_end(uri) implies uri[k] != '?' && uri[k] != '#' by {
            if k > 0 {
                assert(path_of(rest)[k - 1] == uri[k]);
                assert(path_of(rest).contains(path_of(rest)[k - 1]));
            }
        }
    }
}

/// A dialect reads its own headers only: two check requests that agree on the headers that it
/// names are described alike, whatever other headers they carry, and whatever their own method and
/// path are where it names a header for these.
pub proof fn law_a_dialect_reads_its_own_headers_only(
    dialect: Dialect,
    hop: ProxyHop,
    method: Seq<char>,
    path: Seq<char>,
    headers: Seq<(Seq<char>, Seq<char>)>,
    other_method: Seq<char>,
    other_path: Seq<char>,
    other_headers: Seq<(Seq<char>, Seq<char>)>,
)
    requires
        match dialect.spec_method_header() {
            Some(name) => matching(headers, name) == matching(other_headers, name),
            None => method == other_method,
        },
        match dialect.spec_uri_header() {
            Some(name) => matching(headers, name) == matching(other_headers, name),
            None => path == other_path,
        },
        matching(headers, dialect.spec_host_header()) == matching(
            other_headers,
            dialect.spec_host_header(),
        ),
    ensures
        dialect.described(hop, method, path, headers) == dialect.described(
            hop,
            other_method,
            other_path,
            other_headers,
        ),
{
}

/// What the rules see of a request is where it goes, its headers but for the reserved ones, and of
/// who asks only what the identity says.
pub proof fn law_the_rules_see_the_identity(f: rules::FactsView, identity: Option<&Identity>, name: Seq<char>)
    ensures
        ({
            let p = principal_facts(f, identity);
            &&& p.method == f.method && p.host == f.host && p.path == f.path
            &&& p.headers.dom().contains(name) <==> f.headers.dom().contains(name) && !reserved(
                name,
            )
            &&& p.headers.dom().contains(name) ==> p.headers[name] == f.headers[name]
            &&& identity is None ==> p.subject is None && p.acr is None && p.groups.len() == 0
                && p.roles.len() == 0
            &&& (identity matches Some(id) ==> p.subject == Some(id.user@) && p.groups.len()
                == id.groups@.len() && p.roles.len() == id.roles@.len() && p.acr == text::opt_text(
                id.acr,
            ) && (forall|i: int|
                0 <= i < id.groups@.len() ==> #[trigger] p.groups[i] == id.groups@[i]@) && (forall|
                i: int,
            |
                0 <= i < id.roles@.len() ==> #[trigger] p.roles[i] == id.roles@[i]@))
        }),
{
}

/// A first rule that allows signed-in callers allows each of them, under its name, and tells the
/// upstream who it is; it lets no anonymous caller in. One that allows anonymous callers does the
/// opposite.
pub proof fn law_a_rule_for_signed_in_callers(
    set: RuleSet,
    f: rules::FactsView,
    id: &Identity,
    check: rules::SubjectCheck,
)
    requires
        set.spec_rules().len() > 0,
        set.spec_rules()[0].criteria@ == seq![rules::Criterion::Subject(check)],
        set.spec_rules()[0].action is Allow,
        forall|i: int|
            1 <= i < set.spec_rules().len() ==> (#[trigger] set.spec_rules()[i]).action is Deny,
        id.problem() is None,
    ensures
        check is Authenticated ==> {
            &&& surface_decision(set, f, Some(id)).action is Allow
            &&& surface_decision(set, f, Some(id)).matched == Some(set.spec_rules()[0].name@)
            &&& surface_headers(set, f, Some(id)).len() >= 2
            &&& surface_headers(set, f, Some(id))[0] == ("Remote-User"@, id.user@)
            &&& surface_decision(set, f, None).action is Deny
            &&& set.spec_rules().len() == 1 ==> surface_decision(set, f, None).matched is None
        },
        check is Anonymous ==> {
            &&& surface_decision(set, f, None).action is Allow
            &&& surface_decision(set, f, None).matched == Some(set.spec_rules()[0].name@)
            &&& surface_headers(set, f, None).len() == 0
            &&& surface_decision(set, f, Some(id)).action is Deny
            &&& surface_headers(set, f, Some(id)).len() == 0
            &&& set.spec_rules().len() == 1 ==> surface_decision(set, f, Some(id)).matched is None
        },
        check matches rules::SubjectCheck::Is(user) ==> {
            &&& surface_decision(set, f, None).action is Deny
            &&& surface_decision(set, f, Some(id)).action is Allow <==> id.user@ == user@
        },
        check matches rules::SubjectCheck::InGroup(group) ==> {
            &&& surface_decision(set, f, None).action is Deny
            &&& surface_decision(set, f, Some(id)).action is Allow <==> (exists|i: int|
                0 <= i < id.groups@.len() && #[trigger] id.groups@[i]@ == group@)
        },
        check matches rules::SubjectCheck::HasRole(role) ==> {
            &&& surface_decision(set, f, None).action is Deny
            &&& surface_decision(set, f, Some(id)).action is Allow <==> (exists|i: int|
                0 <= i < id.roles@.len() && #[trigger] id.roles@[i]@ == role@)
        },
{
    let all = set.spec_rules();
    let rule = all[0];
    let rest = all.skip(1);
    let order = set.order();
    assert(seq![rule] + rest =~= all);
    let known = principal_facts(f, Some(id));
    let unknown = principal_facts(f, None);
    rules::law_a_list_is_tried_in_order(rule, rest, known, order);
    rules::law_a_list_is_tried_in_order(rule, rest, unknown, order);
    rules::law_one_rule_decides_by_itself(rule, known, order);
    rules::law_one_rule_decides_by_itself(rule, unknown, order);
    rules::law_a_rule_reads_who_asks(rule, check, known, order);
    rules::law_a_rule_reads_who_asks(rule, check, unknown, order);
    assert forall|i: int| 0 <= i < rest.len() implies (#[trigger] rest[i]).action is Deny by {
        assert(rest[i] == all[i + 1]);
    }
    lemma_denials_deny(rest, known, order);
    lemma_denials_deny(rest, unknown, order);
    assert(rest.len() == 0 ==> rest =~= Seq::<rules::Rule>::empty());
    if check is InGroup {
        let group = check->InGroup_0@;
        if exists|i: int| 0 <= i < known.groups.len() && #[trigger] known.groups[i] == group {
            let i = choose|i: int| 0 <= i < known.groups.len() && #[trigger] known.groups[i] == group;
            assert(id.groups@[i]@ == group);
        }
        if exists|i: int| 0 <= i < id.groups@.len() && #[trigger] id.groups@[i]@ == group {
            let i = choose|i: int| 0 <= i < id.groups@.len() && #[trigger] id.groups@[i]@ == group;
            assert(known.groups[i] == group);
        }
    }
    if check is HasRole {
        let role = check->HasRole_0@;
        if exists|i: int| 0 <= i < known.roles.len() && #[trigger] known.roles[i] == role {
            let i = choose|i: int| 0 <= i < known.roles.len() && #[trigger] known.roles[i] == role;
            assert(id.roles@[i]@ == role);
        }
        if exists|i: int| 0 <= i < id.roles@.len() && #[trigger] id.roles@[i]@ == role {
            let i = choose|i: int| 0 <= i < id.roles@.len() && #[trigger] id.roles@[i]@ == role;
            assert(known.roles[i] == role);
        }
    }
}

proof fn lemma_denials_deny(list: Seq<rules::Rule>, f: rules::FactsView, order: Seq<Seq<char>>)
    requires
        forall|i: int| 0 <= i < list.len() ==> (#[trigger] list[i]).action is Deny,
    ensures
        rules::decision(list, f, order).action is Deny,
    decreases list.len(),
{
    if list.len() == 0 {
        assert(list =~= Seq::<rules::Rule>::empty());
        rules::law_a_list_is_tried_in_order(arbitrary(), Seq::empty(), f, order);
    } else {
        let rest = list.skip(1);
        assert(seq![list[0]] + rest =~= list);
        assert forall|i: int| 0 <= i < rest.len() implies (#[trigger] rest[i]).action is Deny by {
            assert(rest[i] == list[i + 1]);
        }
        lemma_denials_deny(rest, f, order);
        rules::law_a_list_is_tried_in_order(list[0], rest, f, order);
        rules::law_one_rule_decides_by_itself(list[0], f, order);
    }
}

/// A surface decides by its rules in their order, for whomever the identity is; a surface without
/// rules denies everything.
pub proof fn law_a_surface_decides_by_its_rules(
    set: RuleSet,
    f: rules::FactsView,
    identity: Option<&Identity>,
)
    requires
        identity matches Some(id) ==> id.problem() is None,
    ensures
        surface_decision(set, f, identity) == rules::decision(
            set.spec_rules(),
            principal_facts(f, identity),
            set.order(),
        ),
        set.spec_rules().len() == 0 ==> surface_decision(set, f, identity).action is Deny,
{
    if set.spec_rules().len() == 0 {
        lemma_denials_deny(set.spec_rules(), principal_facts(f, identity), set.order());
    }
}

/// An identity can be sent where it has a subject, where nothing in it is a control character, and
/// where no group holds a comma; and only then.
pub proof fn law_an_identity_that_splits_nothing_can_be_sent(id: Identity)
    ensures
        id.problem() is None <==> {
            &&& id.user@.len() > 0
            &&& !text::has_control(id.user@)
            &&& forall|i: int|
                0 <= i < id.groups@.len() ==> !text::has_control(#[trigger] id.groups@[i]@)
                    && !id.groups@[i]@.contains(',')
            &&& forall|i: int|
                0 <= i < id.roles@.len() ==> !text::has_control(#[trigger] id.roles@[i]@)
            &&& id.email matches Some(e) ==> !text::has_control(e@)
            &&& id.name matches Some(n) ==> !text::has_control(n@)
        },
{
    let groups = text::texts(id.groups@);
    let roles = text::texts(id.roles@);
    lemma_groups(groups);
    if group_problem(groups) is None {
        assert forall|i: int| 0 <= i < id.groups@.len() implies !text::has_control(
            #[trigger] id.groups@[i]@,
        ) && !id.groups@[i]@.contains(',') by {
            assert(groups[i] == id.groups@[i]@);
        }
    } else {
        let i = choose|i: int|
            0 <= i < groups.len() && (text::has_control(#[trigger] groups[i])
                || groups[i].contains(','));
        assert(id.groups@[i]@ == groups[i]);
    }
    if any_has_control(roles) {
        let i = choose|i: int| 0 <= i < roles.len() && text::has_control(#[trigger] roles[i]);
        assert(id.roles@[i]@ == roles[i]);
    } else {
        assert forall|i: int| 0 <= i < id.roles@.len() implies !text::has_control(
            #[trigger] id.roles@[i]@,
        ) by {
            assert(roles[i] == id.roles@[i]@);
        }
    }
}

proof fn lemma_groups(groups: Seq<Seq<char>>)
    ensures
        group_problem(groups) is None <==> (forall|i: int|
            0 <= i < groups.len() ==> !text::has_control(#[trigger] groups[i])
                && !groups[i].contains(',')),
    decreases groups.len(),
{
    if groups.len() > 0 {
        let rest = groups.skip(1);
        lemma_groups(rest);
        if group_problem(groups) is None {
            assert forall|i: int| 0 <= i < groups.len() implies !text::has_control(
                #[trigger] groups[i],
            ) && !groups[i].contains(',') by {
                if i > 0 {
                    assert(rest[i - 1] == groups[i]);
                }
            }
        } else if forall|i: int|
            0 <= i < groups.len() ==> !text::has_control(#[trigger] groups[i])
                && !groups[i].contains(',') {
            assert(!text::has_control(groups[0]) && !groups[0].contains(','));
            assert forall|i: int| 0 <= i < rest.len() implies !text::has_control(
                #[trigger] rest[i],
            ) && !rest[i].contains(',') by {
                assert(rest[i] == groups[i + 1]);
            }
        }
    }
}

/// An upstream is told the subject, the groups, and the email address and the name where there are
/// any, each under its own header; and the groups are read back from the list.
pub proof fn law_an_upstream_is_told_each_thing_under_its_name(id: Identity)
    ensures
        ({
            let h = upstream(id);
            &&& h.contains(("Remote-User"@, id.user@))
            &&& (id.email matches Some(e) ==> h.contains(("Remote-Email"@, e@)))
            &&& (id.name matches Some(n) ==> h.contains(("Remote-Name"@, n@)))
            &&& h.len() == 2 + (if id.email is Some {
                1int
            } else {
                0
            }) + (if id.name is Some {
                1int
            } else {
                0
            })
            &&& h[1].0 == "Remote-Groups"@
            &&& id.groups@.len() == 0 ==> h[1].1.len() == 0
            &&& id.groups@.len() > 0 && id.problem() is None ==> text::split(h[1].1, ',')
                == text::texts(id.groups@)
        }),
{
    let h = upstream(id);
    assert(h[0] == ("Remote-User"@, id.user@));
    if id.email is Some {
        assert(h[2] == ("Remote-Email"@, id.email->0@));
    }
    if id.name is Some {
        assert(h.last() == ("Remote-Name"@, id.name->0@));
    }
    if id.groups@.len() > 0 && id.problem() is None {
        let groups = text::texts(id.groups@);
        lemma_comma_free(groups);
        reveal_strlit(",");
        assert(","@ =~= seq![',']);
        text::law_joined_parts_are_split_again(groups, ',');
    }
}

/// A name is reserved in every spelling: in whatever case, with underscores for hyphens, and with
/// white space around it.
pub proof fn law_a_reserved_name_is_reserved_in_every_spelling(name: Seq<char>, spelled: Seq<char>)
    requires
        name == "Remote-User"@ || name == "Remote-Groups"@ || name == "Remote-Email"@ || name
            == "Remote-Name"@,
        spelled.len() == name.len(),
        forall|i: int|
            0 <= i < name.len() ==> #[trigger] spelled[i] == name[i] || (name[i] == '-' && spelled[i]
                == '_') || ('a' <= name[i] <= 'z' && spelled[i] as u32 + 32 == name[i] as u32) || (
            'A' <= name[i] <= 'Z' && spelled[i] as u32 == name[i] as u32 + 32),
    ensures
        reserved(spelled),
        reserved(name),
{
    reveal_strlit("Remote-User");
    reveal_strlit("Remote-Groups");
    reveal_strlit("Remote-Email");
    reveal_strlit("Remote-Name");
    assert(trusted_names()[0] == "Remote-User"@);
    assert(trusted_names()[1] == "Remote-Groups"@);
    assert(trusted_names()[2] == "Remote-Email"@);
    assert(trusted_names()[3] == "Remote-Name"@);
    let k: int = if name == "Remote-User"@ {
        0
    } else if name == "Remote-Groups"@ {
        1
    } else if name == "Remote-Email"@ {
        2
    } else {
        3
    };
    assert(trusted_names()[k] == name);
    assert(!text::white_space(name[0]) && !text::white_space(name.last()));
    assert(!text::white_space(spelled[0]));
    assert(spelled[name.len() - 1] == name.last() || spelled[name.len() - 1] as u32 + 32
        == name.last() as u32);
    assert(!text::white_space(spelled.last()));
    text::law_trimming_takes_off_white_space(Seq::empty(), name, Seq::empty());
    text::law_trimming_takes_off_white_space(Seq::empty(), spelled, Seq::empty());
    assert(Seq::empty() + name + Seq::empty() =~= name);
    assert(Seq::empty() + spelled + Seq::empty() =~= spelled);
    assert forall|i: int| 0 <= i < name.len() implies folded(spelled[i]) == folded(name[i]) by {
        assert(spelled[i] == name[i] || (name[i] == '-' && spelled[i] == '_') || ('a' <= name[i]
            <= 'z' && spelled[i] as u32 + 32 == name[i] as u32) || ('A' <= name[i] <= 'Z'
            && spelled[i] as u32 == name[i] as u32 + 32));
    }
    assert(canonical(spelled) =~= canonical(name));
}

/// A name is spelled like another: as long as it, white space aside, and the same but for case and
/// for underscores.
pub open spec fn spelled_like(name: Seq<char>, other: Seq<char>) -> bool {
    &&& text::trim(name).len() == other.len()
    &&& forall|i: int|
        0 <= i < other.len() ==> folded(#[trigger] text::trim(name)[i]) == folded(other[i])
}

/// Only the four names are reserved, in whatever spelling.
pub proof fn law_only_the_four_names_are_reserved(name: Seq<char>)
    requires
        reserved(name),
    ensures
        spelled_like(name, "Remote-User"@) || spelled_like(name, "Remote-Groups"@) || spelled_like(
            name,
            "Remote-Email"@,
        ) || spelled_like(name, "Remote-Name"@),
{
    reveal_strlit("Remote-User");
    reveal_strlit("Remote-Groups");
    reveal_strlit("Remote-Email");
    reveal_strlit("Remote-Name");
    let k = choose|k: int|
        0 <= k < trusted_names().len() && canonical(#[trigger] trusted_names()[k]) == canonical(name);
    let t = trusted_names()[k];
    assert(!text::white_space(t[0]) && !text::white_space(t.last()));
    text::law_trimming_takes_off_white_space(Seq::empty(), t, Seq::empty());
    assert(Seq::empty() + t + Seq::empty() =~= t);
    assert(canonical(t).len() == t.len());
    assert(canonical(name).len() == text::trim(name).len());
    assert forall|i: int| 0 <= i < t.len() implies folded(#[trigger] text::trim(name)[i]) == folded(
        t[i],
    ) by {
        assert(canonical(t)[i] == canonical(name)[i]);
    }
    assert(spelled_like(name, t));
}

/// Every header of a reserved name is named for deletion, once and in order, and no other.
pub proof fn law_every_reserved_header_is_deleted(
    list: Seq<Seq<char>>,
    headers: Map<Seq<char>, Seq<char>>,
    name: Seq<char>,
    i: int,
    j: int,
)
    requires
        lists_reserved(list, headers),
    ensures
        headers.dom().contains(name) && reserved(name) <==> (exists|k: int|
            0 <= k < list.len() && #[trigger] list[k] == name),
        0 <= i < j < list.len() ==> list[i] != list[j] && text::less(list[i], list[j]),
{
    if headers.dom().contains(name) && reserved(name) {
        assert(list.contains(name));
        let k = choose|k: int| 0 <= k < list.len() && list[k] == name;
        assert(list[k] == name);
    }
    if exists|k: int| 0 <= k < list.len() && #[trigger] list[k] == name {
        assert(list.contains(name));
    }
    if 0 <= i < j < list.len() {
        assert(text::less(list[i], list[j]));
        text::lemma_less_total(list[i], list[j]);
    }
}

/// A header that came once has its value, one that came twice has both, in their order, and one that
/// never came is not there.
pub proof fn law_repeated_headers_keep_every_value(
    headers: Seq<(Seq<char>, Seq<char>)>,
    name: Seq<char>,
    i: int,
    j: int,
)
    ensures
        (forall|k: int| 0 <= k < headers.len() ==> (#[trigger] headers[k]).0 != name)
            ==> !combined(headers).dom().contains(name),
        0 <= i < headers.len() && headers[i].0 == name && (forall|k: int|
            0 <= k < headers.len() && k != i ==> (#[trigger] headers[k]).0 != name) ==> combined(
            headers,
        ).dom().contains(name) && combined(headers)[name] == headers[i].1,
        0 <= i < j < headers.len() && headers[i].0 == name && headers[j].0 == name && (forall|
            k: int,
        |
            0 <= k < headers.len() && k != i && k != j ==> (#[trigger] headers[k]).0 != name)
            ==> combined(headers).dom().contains(name) && combined(headers)[name] == headers[i].1
            + ", "@ + headers[j].1,
{
    if forall|k: int| 0 <= k < headers.len() ==> (#[trigger] headers[k]).0 != name {
        lemma_no_values(headers, name);
    }
    if 0 <= i < headers.len() && headers[i].0 == name && (forall|k: int|
        0 <= k < headers.len() && k != i ==> (#[trigger] headers[k]).0 != name) {
        lemma_one_value(headers, name, i);
        assert(values_of(headers, name) == seq![headers[i].1]);
    }
    if 0 <= i < j < headers.len() && headers[i].0 == name && headers[j].0 == name && (forall|k: int|
        0 <= k < headers.len() && k != i && k != j ==> (#[trigger] headers[k]).0 != name) {
        lemma_two_values(headers, name, i, j);
        let vs = seq![headers[i].1, headers[j].1];
        assert(vs.drop_last() =~= seq![headers[i].1]);
        assert(text::join(vs.drop_last(), ", "@) == headers[i].1);
    }
}

proof fn lemma_no_values(headers: Seq<(Seq<char>, Seq<char>)>, name: Seq<char>)
    requires
        forall|k: int| 0 <= k < headers.len() ==> (#[trigger] headers[k]).0 != name,
    ensures
        values_of(headers, name) == Seq::<Seq<char>>::empty(),
    decreases headers.len(),
{
    if headers.len() > 0 {
        let head = headers.drop_last();
        assert forall|k: int| 0 <= k < head.len() implies (#[trigger] head[k]).0 != name by {
            assert(head[k] == headers[k]);
        }
        lemma_no_values(head, name);
        assert(headers[headers.len() - 1].0 != name);
    }
}

proof fn lemma_one_value(headers: Seq<(Seq<char>, Seq<char>)>, name: Seq<char>, i: int)
    requires
        0 <= i < headers.len(),
        headers[i].0 == name,
        forall|k: int| 0 <= k < headers.len() && k != i ==> (#[trigger] headers[k]).0 != name,
    ensures
        values_of(headers, name) == seq![headers[i].1],
    decreases headers.len(),
{
    let head = headers.drop_last();
    if i == headers.len() - 1 {
        assert forall|k: int| 0 <= k < head.len() implies (#[trigger] head[k]).0 != name by {
            assert(head[k] == headers[k]);
        }
        lemma_no_values(head, name);
        assert(values_of(headers, name) =~= seq![headers[i].1]);
    } else {
        assert forall|k: int| 0 <= k < head.len() && k != i implies (#[trigger] head[k]).0
            != name by {
            assert(head[k] == headers[k]);
        }
        assert(head[i] == headers[i]);
        lemma_one_value(head, name, i);
        assert(headers[headers.len() - 1].0 != name);
    }
}

proof fn lemma_two_values(headers: Seq<(Seq<char>, Seq<char>)>, name: Seq<char>, i: int, j: int)
    requires
        0 <= i < j < headers.len(),
        headers[i].0 == name,
        headers[j].0 == name,
        forall|k: int|
            0 <= k < headers.len() && k != i && k != j ==> (#[trigger] headers[k]).0 != name,
    ensures
        values_of(headers, name) == seq![headers[i].1, headers[j].1],
    decreases headers.len(),
{
    let head = headers.drop_last();
    assert(head[i] == headers[i]);
    if j == headers.len() - 1 {
        assert forall|k: int| 0 <= k < head.len() && k != i implies (#[trigger] head[k]).0
            != name by {
            assert(head[k] == headers[k]);
        }
        lemma_one_value(head, name, i);
        assert(values_of(headers, name) =~= seq![headers[i].1, headers[j].1]);
    } else {
        assert forall|k: int| 0 <= k < head.len() && k != i && k != j implies (#[trigger] head[k]).0
            != name by {
            assert(head[k] == headers[k]);
        }
        assert(head[j] == headers[j]);
        lemma_two_values(head, name, i, j);
        assert(headers[headers.len() - 1].0 != name);
    }
}

/// A host is read without its port, and a path without its query and its fragment.
pub proof fn law_a_port_and_a_query_are_left_out(
    host: Seq<char>,
    port: Seq<char>,
    path: Seq<char>,
    rest: Seq<char>,
)
    requires
        port.len() > 0,
        forall|k: int| 0 <= k < port.len() ==> text::digit(#[trigger] port[k]),
        !path.contains('?'),
        !path.contains('#'),
        rest.len() == 0 || rest[0] == '?' || rest[0] == '#',
    ensures
        bare_host(host + seq![':'] + port) == host,
        !host.contains(':') ==> bare_host(host) == host,
        path_of(path + rest) == path,
{
    let whole = host + seq![':'] + port;
    let p = host.len() as int;
    assert forall|k: int| p < k < whole.len() implies text::digit(#[trigger] whole[k]) by {
        assert(whole[k] == port[k - p - 1]);
    }
    assert(port_at(whole, p));
    lemma_port_unique(whole, p);
    assert(whole.take(p) =~= host);
    if !host.contains(':') && (exists|q: int| #[trigger] port_at(host, q)) {
        let q = choose|q: int| #[trigger] port_at(host, q);
        assert(host[q] == ':');
    }
    lemma_path_ends(path, rest);
    assert((path + rest).take(path.len() as int) =~= path);
}

proof fn lemma_path_ends(path: Seq<char>, rest: Seq<char>)
    requires
        !path.contains('?'),
        !path.contains('#'),
        rest.len() == 0 || rest[0] == '?' || rest[0] == '#',
    ensures
        path_end(path + rest) == path.len(),
    decreases path.len(),
{
    let s = path + rest;
    if path.len() == 0 {
        assert(s =~= rest);
    } else {
        let tail = path.skip(1);
        assert(path.contains(path[0]));
        assert(s.skip(1) =~= tail + rest);
        assert(!tail.contains('?') && !tail.contains('#')) by {
            if tail.contains('?') {
                let k = choose|k: int| 0 <= k < tail.len() && tail[k] == '?';
                assert(path[k + 1] == '?');
            }
            if tail.contains('#') {
                let k = choose|k: int| 0 <= k < tail.len() && tail[k] == '#';
                assert(path[k + 1] == '#');
            }
        }
        lemma_path_ends(tail, rest);
    }
}

/// A header that came once under a name, in whatever case, is read as it is; one that did not come
/// is missed, and two of one name that differ are in conflict.
pub proof fn law_a_header_is_read_once(
    headers: Seq<(Seq<char>, Seq<char>)>,
    name: Seq<char>,
    i: int,
    j: int,
)
    ensures
        (forall|k: int|
            0 <= k < headers.len() ==> text::lower((#[trigger] headers[k]).0) != text::lower(name))
            ==> read(headers, name) == Err::<Seq<char>, DialectErrorView>(
            DialectErrorView::Missing { header: name },
        ),
        0 <= i < headers.len() && text::lower(headers[i].0) == text::lower(name) && (forall|k: int|
            0 <= k < headers.len() && k != i ==> text::lower((#[trigger] headers[k]).0)
                != text::lower(name)) ==> read(headers, name) == Ok::<Seq<char>, DialectErrorView>(
            headers[i].1,
        ),
        0 <= i < j < headers.len() && text::lower(headers[i].0) == text::lower(name) && text::lower(
            headers[j].0,
        ) == text::lower(name) && headers[i].1 != headers[j].1 ==> read(headers, name) == Err::<
            Seq<char>,
            DialectErrorView,
        >(DialectErrorView::Conflicting { header: name }),
{
    lemma_matching(headers, name);
    let m = matching(headers, name);
    if forall|k: int|
        0 <= k < headers.len() ==> text::lower((#[trigger] headers[k]).0) != text::lower(name) {
        if m.len() > 0 {
            assert(m.contains(m[0]));
        }
    }
    if 0 <= i < headers.len() && text::lower(headers[i].0) == text::lower(name) {
        assert(m.contains(headers[i].1));
        if forall|k: int|
            0 <= k < headers.len() && k != i ==> text::lower((#[trigger] headers[k]).0)
                != text::lower(name) {
            assert forall|k: int| 0 <= k < m.len() implies #[trigger] m[k] == headers[i].1 by {
                assert(m.contains(m[k]));
            }
            assert(agree(m));
            assert(m[0] == headers[i].1);
        }
        if i < j < headers.len() && text::lower(headers[j].0) == text::lower(name) && headers[i].1
            != headers[j].1 {
            assert(m.contains(headers[j].1));
            let a = choose|a: int| 0 <= a < m.len() && m[a] == headers[i].1;
            let b = choose|b: int| 0 <= b < m.len() && m[b] == headers[j].1;
            assert(m[a] != m[b]);
            assert(!agree(m));
        }
    }
}

proof fn lemma_matching(headers: Seq<(Seq<char>, Seq<char>)>, name: Seq<char>)
    ensures
        forall|v: Seq<char>| #[trigger]
            matching(headers, name).contains(v) <==> (exists|k: int|
                0 <= k < headers.len() && text::lower((#[trigger] headers[k]).0) == text::lower(
                    name,
                ) && headers[k].1 == v),
    decreases headers.len(),
{
    let m = matching(headers, name);
    if headers.len() > 0 {
        let head = headers.drop_last();
        let n = matching(head, name);
        lemma_matching(head, name);
        assert forall|v: Seq<char>| #[trigger] m.contains(v) <==> (exists|k: int|
            0 <= k < headers.len() && text::lower((#[trigger] headers[k]).0) == text::lower(name)
                && headers[k].1 == v) by {
            if n.contains(v) {
                let a = choose|a: int| 0 <= a < n.len() && n[a] == v;
                assert(m[a] == v);
                let k = choose|k: int|
                    0 <= k < head.len() && text::lower((#[trigger] head[k]).0) == text::lower(name)
                        && head[k].1 == v;
                assert(headers[k] == head[k]);
            }
            if m.contains(v) && !n.contains(v) {
                let a = choose|a: int| 0 <= a < m.len() && m[a] == v;
                if a < n.len() {
                    assert(n[a] == v);
                }
                assert(headers[headers.len() - 1].1 == v);
            }
            if exists|k: int|
                0 <= k < headers.len() && text::lower((#[trigger] headers[k]).0) == text::lower(
                    name,
                ) && headers[k].1 == v {
                let k = choose|k: int|
                    0 <= k < headers.len() && text::lower((#[trigger] headers[k]).0)
                        == text::lower(name) && headers[k].1 == v;
                if k < headers.len() - 1 {
                    assert(head[k] == headers[k]);
                } else {
                    assert(m.last() == v);
                }
            }
        }
    }
}

/// A dialect reads the method, the URI and the host of the request under the names that its proxies
/// set, and the request is described where these can be decided.
pub proof fn law_a_dialect_reads_what_its_proxies_set(
    dialect: Dialect,
    check_method: Seq<char>,
    check_path: Seq<char>,
    headers: Seq<(Seq<char>, Seq<char>)>,
)
    ensures
        ({
            let d = dialect.described(ProxyHop::Trusted, check_method, check_path, headers);
            let method = match dialect {
                Dialect::ForwardAuth | Dialect::Haproxy => read(headers, "x-forwarded-method"@),
                Dialect::NginxAuthRequest => read(headers, "x-original-method"@),
                Dialect::EnvoyExtAuthz => Ok(check_method),
            };
            let uri = match dialect {
                Dialect::ForwardAuth | Dialect::Haproxy => read(headers, "x-forwarded-uri"@),
                Dialect::NginxAuthRequest => read(headers, "x-original-uri"@),
                Dialect::EnvoyExtAuthz => Ok(check_path),
            };
            let host = match dialect {
                Dialect::ForwardAuth | Dialect::Haproxy => read(headers, "x-forwarded-host"@),
                _ => read(headers, "host"@),
            };
            &&& (d matches Ok(r) ==> method == Ok::<Seq<char>, DialectErrorView>(r.method)
                && uri is Ok && r.path == path_of(uri->Ok_0) && host is Ok && r.host == bare_host(
                host->Ok_0,
            ))
            &&& method is Ok && uri is Ok && host is Ok && decidable(path_of(uri->Ok_0)) && one_host(
                host->Ok_0,
            ) ==> d is Ok
            &&& method is Err ==> d is Err && d->Err_0 == method->Err_0
            &&& method is Ok && uri is Ok && host is Ok && !decidable(path_of(uri->Ok_0)) ==> d
                is Err && d->Err_0 is MalformedUri
        }),
{
}

/// A path can be decided where it begins with a slash, climbs nowhere, and holds neither a percent
/// sign nor a control character, up to four thousand and ninety-six bytes.
pub proof fn law_a_plain_path_is_decidable(path: Seq<char>)
    ensures
        decidable(path) <==> path.len() > 0 && path[0] == '/' && !path.contains('%')
            && text::byte_len(path) <= 4096 && (forall|i: int|
            0 <= i < path.len() ==> !text::control(#[trigger] path[i])) && (forall|i: int|
            0 <= i < path.len() - 1 && #[trigger] path[i] == '.' ==> path[i + 1] != '.'),
{
    reveal_strlit("..");
    if text::occurs(path, ".."@) {
        let i = choose|i: int| #[trigger] text::occurs_at(path, ".."@, i);
        assert(path.subrange(i, i + 2)[0] == '.');
        assert(path.subrange(i, i + 2)[1] == '.');
        assert(path[i] == '.' && path[i + 1] == '.');
    } else {
        assert forall|i: int| 0 <= i < path.len() - 1 && #[trigger] path[i] == '.' implies path[i
            + 1] != '.' by {
            if path[i + 1] == '.' {
                assert(path.subrange(i, i + 2) =~= ".."@);
                assert(text::occurs_at(path, ".."@, i));
            }
        }
    }
}

/// What is wrong with an identity is told of the first field that it is wrong with: the subject, the
/// groups, the roles, the email address and the name, in this order.
pub proof fn law_a_problem_is_told_of_its_field(id: Identity)
    ensures
        id.user@.len() == 0 ==> id.problem() == Some(IdentityErrorView::EmptySubject),
        id.user@.len() > 0 && text::has_control(id.user@) ==> id.problem() == Some(
            (IdentityErrorView::ControlCharacter { field: "user"@ }),
        ),
        id.user@.len() > 0 && !text::has_control(id.user@) && id.groups@.len() > 0 && text::has_control(
            id.groups@[0]@,
        ) ==> id.problem() == Some((IdentityErrorView::ControlCharacter { field: "groups"@ })),
        id.user@.len() > 0 && !text::has_control(id.user@) && id.groups@.len() > 0
            && !text::has_control(id.groups@[0]@) && id.groups@[0]@.contains(',') ==> id.problem()
            == Some((IdentityErrorView::SeparatorInGroup { group: id.groups@[0]@ })),
        id.user@.len() > 0 && !text::has_control(id.user@) && id.groups@.len() == 0 && (exists|i: int|
            0 <= i < id.roles@.len() && text::has_control(#[trigger] id.roles@[i]@)) ==> id.problem()
            == Some((IdentityErrorView::ControlCharacter { field: "roles"@ })),
        id.user@.len() > 0 && !text::has_control(id.user@) && id.groups@.len() == 0 && id.roles@.len()
            == 0 ==> {
            &&& (id.email matches Some(e) && text::has_control(e@)) ==> id.problem() == Some(
                (IdentityErrorView::ControlCharacter { field: "email"@ }),
            )
            &&& !(id.email matches Some(e) && text::has_control(e@)) && (id.name matches Some(n)
                && text::has_control(n@)) ==> id.problem() == Some(
                (IdentityErrorView::ControlCharacter { field: "name"@ }),
            )
        },
{
    let groups = text::texts(id.groups@);
    let roles = text::texts(id.roles@);
    if groups.len() > 0 {
        assert(groups[0] == id.groups@[0]@);
    }
    if exists|i: int| 0 <= i < id.roles@.len() && text::has_control(#[trigger] id.roles@[i]@) {
        let i = choose|i: int|
            0 <= i < id.roles@.len() && text::has_control(#[trigger] id.roles@[i]@);
        assert(text::has_control(roles[i]));
    }
}

/// A list of hosts, a text with a control character and a port alone are not one host; a text with
/// none of these that does not begin with its port is.
pub proof fn law_one_host_is_no_list(host: Seq<char>)
    ensures
        host.contains(',') || text::has_control(host) || bare_host(host).len() == 0 || host.len() == 0
            ==> !one_host(host),
        !host.contains(',') && !text::has_control(host) && bare_host(host).len() > 0 && host.len() > 0
            ==> one_host(host),
{
}

/// What is wrong with an identity, or with a check request, is told as what it is.
pub proof fn law_an_error_is_told_as_what_it_is(identity: IdentityError, dialect: DialectError)
    ensures
        identity is EmptySubject ==> identity@ is EmptySubject,
        identity matches IdentityError::ControlCharacter { field } ==> identity@ == (
        IdentityErrorView::ControlCharacter { field: field@ }),
        identity matches IdentityError::SeparatorInGroup { group } ==> identity@ == (
        IdentityErrorView::SeparatorInGroup { group: group@ }),
        dialect is UntrustedHop ==> dialect@ is UntrustedHop,
        dialect matches DialectError::Missing { header } ==> dialect@ == (DialectErrorView::Missing {
            header: header@,
        }),
        dialect matches DialectError::Conflicting { header } ==> dialect@ == (
        DialectErrorView::Conflicting { header: header@ }),
        dialect is MalformedUri ==> dialect@ is MalformedUri,
        dialect is MalformedHost ==> dialect@ is MalformedHost,
{
}

} // verus!
