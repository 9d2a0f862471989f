//! Identity chaining: what an identity assertion from another trust domain must meet.
//!
//! The receiving side accepts an assertion as an authorization grant. Everything that an ordinary
//! assertion grant refuses is refused before this; what is added here is what makes an identity
//! assertion different. It carries a media type of its own. It names the client that may present
//! it, and that client is confidential, or naming it would cost an interceptor nothing. And its
//! scope is a ceiling on the scope that is issued.

use vstd::prelude::*;

use crate::json;
use crate::text;

verus! {

/// The revision of identity chaining that is targeted.
pub const IDENTITY_CHAINING_DRAFT: &'static str = "draft-ietf-oauth-identity-chaining-16";

/// The revision of the identity assertion that is accepted.
pub const ID_JAG_DRAFT: &'static str = "draft-ietf-oauth-identity-assertion-authz-grant-04";

/// The media type of an identity assertion.
pub const ID_JAG_TYP: &'static str = "oauth-id-jag+jwt";

/// Why an identity assertion was refused. The client sees one refusal for all of them.
#[derive(Debug, Clone, Copy, PartialEq, Eq, Structural)]
pub enum IdentityAssertionRefusal {
    /// It does not carry the media type of an identity assertion.
    NotAnIdentityAssertion,
    /// The presenting client proved nothing but that it knows its own public identifier.
    PresenterNotConfidential,
    /// It names another client: an interception.
    ClientMismatch,
    /// It names no client: a misconfigured issuer.
    Unbound,
    /// It carries no scope, so that there is nothing to issue against.
    NoScope,
    /// More scope was requested than it authorizes.
    ScopeExceedsAssertion,
}

/// Whether a verified token is an identity assertion: `media_type_is` says whether the media type of
/// a token, where it has one, is the one that it is held against.
pub fn is_identity_assertion<F: Fn(Option<&str>, &str) -> bool>(
    token_typ: Option<&str>,
    media_type_is: F,
) -> (r: bool)
    requires
        call_requires(media_type_is, (token_typ, ID_JAG_TYP)),
    ensures
        call_ensures(media_type_is, (token_typ, ID_JAG_TYP), r),
{
    media_type_is(token_typ, ID_JAG_TYP)
}

// ---------------------------------------------------------------------------
// Scopes
// ---------------------------------------------------------------------------

/// The list without what stands in it before.
pub open spec fn distinct(s: Seq<Seq<char>>) -> Seq<Seq<char>>
    decreases s.len(),
{
    if s.len() == 0 {
        Seq::empty()
    } else {
        let rest = distinct(s.drop_last());
        if rest.contains(s.last()) {
            rest
        } else {
            rest.push(s.last())
        }
    }
}

/// The list without repeats; the first of equal ones stays where it is.
pub fn dedup(scopes: &Vec<String>) -> (r: Vec<String>)
    ensures
        text::texts(r@) == distinct(text::texts(scopes@)),
{
    let ghost all = text::texts(scopes@);
    let mut r: Vec<String> = Vec::new();
    let mut i: usize = 0;
    assert(text::texts(r@) =~= distinct(all.take(0)));
    while i < scopes.len()
        invariant
            i <= scopes@.len(),
            all == text::texts(scopes@),
            text::texts(r@) == distinct(all.take(i as int)),
        decreases scopes@.len() - i,
    {
        assert(all.take(i + 1).drop_last() =~= all.take(i as int));
        assert(all.take(i + 1).last() == scopes@[i as int]@);
        if !text::list_holds(&r, scopes[i].as_str()) {
            text::push_text(&mut r, scopes[i].as_str());
        }
        i = i + 1;
    }
    assert(all.take(all.len() as int) =~= all);
    r
}

/// The scopes of a scope text, without repeats; none where there is no text.
pub open spec fn scopes_of(scope: Option<Seq<char>>) -> Seq<Seq<char>> {
    match scope {
        Some(s) => distinct(text::words(s)),
        None => Seq::empty(),
    }
}

/// The scopes of a scope text.
fn scope_list(scope: Option<&str>) -> (r: Vec<String>)
    ensures
        text::texts(r@) == scopes_of(text::opt_str(scope)),
{
    match scope {
        Some(s) => {
            let words: Vec<String> = text::words_of(s);
            dedup(&words)
        },
        None => {
            let r: Vec<String> = Vec::new();
            assert(text::texts(r@) =~= Seq::empty());
            r
        },
    }
}

/// Every scope of `some` is one of `all`.
pub open spec fn within(some: Seq<Seq<char>>, all: Seq<Seq<char>>) -> bool {
    forall|i: int| 0 <= i < some.len() ==> all.contains(#[trigger] some[i])
}

/// What an identity assertion comes to: the scope that may be issued, or the refusal.
pub open spec fn assertion_scope(
    identity: bool,
    client: Option<Seq<char>>,
    scope: Option<Seq<char>>,
    presenter: Seq<char>,
    confidential: bool,
    requested: Option<Seq<char>>,
) -> Result<Seq<Seq<char>>, IdentityAssertionRefusal> {
    let authorized = scopes_of(scope);
    let asked = scopes_of(requested);
    if !identity {
        Err(IdentityAssertionRefusal::NotAnIdentityAssertion)
    } else if client is None || client->0.len() == 0 {
        Err(IdentityAssertionRefusal::Unbound)
    } else if client->0 != presenter {
        Err(IdentityAssertionRefusal::ClientMismatch)
    } else if !confidential {
        Err(IdentityAssertionRefusal::PresenterNotConfidential)
    } else if authorized.len() == 0 {
        Err(IdentityAssertionRefusal::NoScope)
    } else if asked.len() == 0 {
        Ok(authorized)
    } else if within(asked, authorized) {
        Ok(asked)
    } else {
        Err(IdentityAssertionRefusal::ScopeExceedsAssertion)
    }
}

/// What an identity assertion must meet, over the claims that matter. The client that it names is
/// checked before the presenter, so that an interception is always reported as one.
pub fn assertion_grants(
    identity: bool,
    client_id: Option<&str>,
    scope: Option<&str>,
    presenting_client: &str,
    presenter_is_confidential: bool,
    requested_scope: Option<&str>,
) -> (r: Result<Vec<String>, IdentityAssertionRefusal>)
    ensures
        match r {
            Ok(list) => assertion_scope(
                identity,
                text::opt_str(client_id),
                text::opt_str(scope),
                presenting_client@,
                presenter_is_confidential,
                text::opt_str(requested_scope),
            ) == Ok::<Seq<Seq<char>>, IdentityAssertionRefusal>(text::texts(list@)),
            Err(e) => assertion_scope(
                identity,
                text::opt_str(client_id),
                text::opt_str(scope),
                presenting_client@,
                presenter_is_confidential,
                text::opt_str(requested_scope),
            ) == Err::<Seq<Seq<char>>, IdentityAssertionRefusal>(e),
        },
{
    if !identity {
        return Err(IdentityAssertionRefusal::NotAnIdentityAssertion);
    }
    match client_id {
        Some(client) => {
            if client.is_empty() {
                return Err(IdentityAssertionRefusal::Unbound);
            }
            if !text::same(client, presenting_client) {
                return Err(IdentityAssertionRefusal::ClientMismatch);
            }
        },
        None => return Err(IdentityAssertionRefusal::Unbound),
    }
    if !presenter_is_confidential {
        return Err(IdentityAssertionRefusal::PresenterNotConfidential);
    }
    let authorized: Vec<String> = scope_list(scope);
    let ghost ceiling = text::texts(authorized@);
    assert(ceiling.len() == authorized@.len());
    if authorized.len() == 0 {
        return Err(IdentityAssertionRefusal::NoScope);
    }
    let requested: Vec<String> = scope_list(requested_scope);
    let ghost asked = text::texts(requested@);
    assert(asked.len() == requested@.len());
    if requested.len() == 0 {
        return Ok(authorized);
    }
    let mut i: usize = 0;
    while i < requested.len()
        invariant
            i <= requested@.len(),
            ceiling == text::texts(authorized@),
            asked == text::texts(requested@),
            ceiling == scopes_of(text::opt_str(scope)),
            asked == scopes_of(text::opt_str(requested_scope)),
            ceiling.len() > 0,
            asked.len() > 0,
            identity,
            client_id is Some,
            client_id->0@.len() > 0,
            client_id->0@ == presenting_client@,
            presenter_is_confidential,
            forall|k: int| 0 <= k < i ==> ceiling.contains(#[trigger] asked[k]),
        decreases requested@.len() - i,
    {
        if !text::list_holds(&authorized, requested[i].as_str()) {
            assert(!ceiling.contains(asked[i as int]));
            return Err(IdentityAssertionRefusal::ScopeExceedsAssertion);
        }
        assert(ceiling.contains(asked[i as int]));
        i = i + 1;
    }
    Ok(requested)
}

/// What an identity assertion must meet, on top of what every assertion must. `identity` says that
/// it is one, see [`is_identity_assertion`]. Returns the scope that may be issued: that of the
/// assertion where none is requested, else the requested one, which must lie within it.
pub fn accept_assertion(
    identity: bool,
    claims: &serde_json::Value,
    presenting_client: &str,
    presenter_is_confidential: bool,
    requested_scope: Option<&str>,
) -> (r: Result<Vec<String>, IdentityAssertionRefusal>)
    ensures
        match r {
            Ok(list) => assertion_scope(
                identity,
                json::member_text(*claims, "client_id"@),
                json::member_text(*claims, "scope"@),
                presenting_client@,
                presenter_is_confidential,
                text::opt_str(requested_scope),
            ) == Ok::<Seq<Seq<char>>, IdentityAssertionRefusal>(text::texts(list@)),
            Err(e) => assertion_scope(
                identity,
                json::member_text(*claims, "client_id"@),
                json::member_text(*claims, "scope"@),
                presenting_client@,
                presenter_is_confidential,
                text::opt_str(requested_scope),
            ) == Err::<Seq<Seq<char>>, IdentityAssertionRefusal>(e),
        },
{
    assertion_grants(
        identity,
        json::text_member(claims, "client_id"),
        json::text_member(claims, "scope"),
        presenting_client,
        presenter_is_confidential,
        requested_scope,
    )
}

// ---------------------------------------------------------------------------
// Laws
// ---------------------------------------------------------------------------

/// A list without repeats has the elements of the list, and has none of them twice.
pub proof fn law_distinct_keeps_every_scope_once(s: Seq<Seq<char>>)
    ensures
        forall|x: Seq<char>| distinct(s).contains(x) <==> s.contains(x),
        forall|i: int, j: int|
            0 <= i < j < distinct(s).len() ==> distinct(s)[i] != distinct(s)[j],
    decreases s.len(),
{
    if s.len() > 0 {
        law_distinct_keeps_every_scope_once(s.drop_last());
        let rest = distinct(s.drop_last());
        assert forall|x: Seq<char>| distinct(s).contains(x) <==> s.contains(x) by {
            if s.contains(x) {
                let k = choose|k: int| 0 <= k < s.len() && s[k] == x;
                if k < s.len() - 1 {
                    assert(s.drop_last()[k] == x);
                    assert(s.drop_last().contains(x));
                }
                if rest.contains(x) {
                    let m = choose|m: int| 0 <= m < rest.len() && rest[m] == x;
                    assert(distinct(s)[m] == x);
                } else {
                    assert(x == s.last());
                    assert(distinct(s)[rest.len() as int] == x);
                }
            }
            if distinct(s).contains(x) {
                if rest.contains(x) {
                    assert(s.drop_last().contains(x));
                    let m = choose|m: int| 0 <= m < s.drop_last().len() && s.drop_last()[m] == x;
                    assert(s[m] == x);
                } else {
                    let m = choose|m: int| 0 <= m < distinct(s).len() && distinct(s)[m] == x;
                    assert(m == rest.len() ==> x == s.last());
                    if m < rest.len() {
                        assert(rest[m] == x);
                    }
                    assert(s[s.len() - 1] == x);
                }
            }
        }
        assert forall|i: int, j: int| 0 <= i < j < distinct(s).len() implies distinct(s)[i]
            != distinct(s)[j] by {
            if j == rest.len() {
                assert(rest.contains(rest[i]));
            }
        }
    }
}

/// The scope of the assertion is a ceiling: every scope that is issued is one that it names, and
/// none is issued twice. Something is issued.
pub proof fn law_the_assertion_is_a_ceiling(
    identity: bool,
    client: Option<Seq<char>>,
    scope: Option<Seq<char>>,
    presenter: Seq<char>,
    confidential: bool,
    requested: Option<Seq<char>>,
)
    requires
        assertion_scope(identity, client, scope, presenter, confidential, requested) is Ok,
    ensures
        ({
            let issued = assertion_scope(
                identity,
                client,
                scope,
                presenter,
                confidential,
                requested,
            )->Ok_0;
            &&& issued.len() > 0
            &&& scope is Some
            &&& forall|i: int| 0 <= i < issued.len() ==> text::words(scope->0).contains(
                #[trigger] issued[i],
            )
            &&& forall|i: int, j: int| 0 <= i < j < issued.len() ==> issued[i] != issued[j]
        }),
{
    let issued = assertion_scope(
        identity,
        client,
        scope,
        presenter,
        confidential,
        requested,
    )->Ok_0;
    law_distinct_keeps_every_scope_once(text::words(scope->0));
    if requested is Some {
        law_distinct_keeps_every_scope_once(text::words(requested->0));
    }
    assert forall|i: int| 0 <= i < issued.len() implies text::words(scope->0).contains(
        #[trigger] issued[i],
    ) by {
        if issued == scopes_of(scope) {
            assert(distinct(text::words(scope->0)).contains(issued[i]));
        } else {
            assert(scopes_of(scope).contains(scopes_of(requested)[i]));
        }
    }
}

/// An assertion is worth something only to the confidential client that it names.
pub proof fn law_only_the_named_client_presents(
    identity: bool,
    client: Option<Seq<char>>,
    scope: Option<Seq<char>>,
    presenter: Seq<char>,
    confidential: bool,
    requested: Option<Seq<char>>,
)
    requires
        assertion_scope(identity, client, scope, presenter, confidential, requested) is Ok,
    ensures
        identity,
        client == Some(presenter),
        confidential,
{
}

/// The scopes of a list are kept in their order, the first of equal ones at its place.
pub proof fn law_the_first_of_equal_scopes_stays(s: Seq<Seq<char>>, next: Seq<char>)
    ensures
        distinct(Seq::empty()).len() == 0,
        !s.contains(next) ==> distinct(s.push(next)) == distinct(s).push(next),
        s.contains(next) ==> distinct(s.push(next)) == distinct(s),
        s.no_duplicates() ==> distinct(s) == s,
    decreases s.len(),
{
    law_distinct_keeps_every_scope_once(s);
    assert(s.push(next).drop_last() =~= s);
    if s.no_duplicates() && s.len() > 0 {
        let front = s.drop_last();
        assert(front.no_duplicates());
        assert(!front.contains(s.last())) by {
            if front.contains(s.last()) {
                let k = choose|k: int| 0 <= k < front.len() && front[k] == s.last();
                assert(s[k] == s[s.len() - 1]);
            }
        }
        law_the_first_of_equal_scopes_stays(front, s.last());
        assert(front.push(s.last()) =~= s);
    }
}

/// An assertion is refused for the first of these: it is no identity assertion, it names no client,
/// it names another one than presents it, the presenter is not confidential, it has no scope, or a
/// scope is asked for that it does not name.
pub proof fn law_an_assertion_is_refused_for_the_first_reason(
    identity: bool,
    client: Option<Seq<char>>,
    scope: Option<Seq<char>>,
    presenter: Seq<char>,
    confidential: bool,
    requested: Option<Seq<char>>,
)
    ensures
        ({
            let r = assertion_scope(identity, client, scope, presenter, confidential, requested);
            let named = client matches Some(c) && c.len() > 0;
            let empty = scope matches Some(s) ==> text::words(s).len() == 0;
            &&& !identity ==> r == Err::<Seq<Seq<char>>, IdentityAssertionRefusal>(
                IdentityAssertionRefusal::NotAnIdentityAssertion,
            )
            &&& identity && !named ==> r == Err::<Seq<Seq<char>>, IdentityAssertionRefusal>(
                IdentityAssertionRefusal::Unbound,
            )
            &&& identity && named && client != Some(presenter) ==> r == Err::<
                Seq<Seq<char>>,
                IdentityAssertionRefusal,
            >(IdentityAssertionRefusal::ClientMismatch)
            &&& identity && named && client == Some(presenter) && !confidential ==> r == Err::<
                Seq<Seq<char>>,
                IdentityAssertionRefusal,
            >(IdentityAssertionRefusal::PresenterNotConfidential)
            &&& identity && named && client == Some(presenter) && confidential && empty ==> r == Err::<
                Seq<Seq<char>>,
                IdentityAssertionRefusal,
            >(IdentityAssertionRefusal::NoScope)
            &&& identity && named && client == Some(presenter) && confidential && !empty ==> (r
                == Err::<Seq<Seq<char>>, IdentityAssertionRefusal>(
                IdentityAssertionRefusal::ScopeExceedsAssertion,
            ) <==> (requested matches Some(asked) && exists|i: int|
                0 <= i < text::words(asked).len() && !text::words(scope->0).contains(
                    #[trigger] text::words(asked)[i],
                )))
        }),
{
    if scope is Some {
        let words = text::words(scope->0);
        law_distinct_keeps_every_scope_once(words);
        let d = distinct(words);
        if words.len() > 0 {
            assert(words.contains(words[0]));
            assert(d.contains(words[0]));
        }
        if d.len() > 0 {
            assert(d.contains(d[0]));
        }
        if requested is Some {
            let asked = text::words(requested->0);
            law_distinct_keeps_every_scope_once(asked);
            let q = distinct(asked);
            if exists|i: int| 0 <= i < asked.len() && !words.contains(#[trigger] asked[i]) {
                let i = choose|i: int| 0 <= i < asked.len() && !words.contains(#[trigger] asked[i]);
                assert(asked.contains(asked[i]));
                let k = choose|k: int| 0 <= k < q.len() && q[k] == asked[i];
                assert(!d.contains(q[k]));
                assert(!within(q, d));
            } else {
                assert forall|k: int| 0 <= k < q.len() implies d.contains(#[trigger] q[k]) by {
                    assert(distinct(asked).contains(q[k]));
                    assert(asked.contains(q[k]));
                    let i = choose|i: int| 0 <= i < asked.len() && asked[i] == q[k];
                    assert(words.contains(asked[i]));
                }
            }
        }
    }
}

/// An assertion that the confidential client which it names presents is worth its scope: all of it
/// where nothing is asked for, and else what is asked for, as long as the assertion names that.
pub proof fn law_the_named_client_gets_what_it_asks_for(
    client: Seq<char>,
    scope: Seq<char>,
    requested: Option<Seq<char>>,
)
    requires
        client.len() > 0,
        text::words(scope).len() > 0,
    ensures
        ({
            let r = assertion_scope(true, Some(client), Some(scope), client, true, requested);
            &&& (requested matches Some(asked) ==> text::words(asked).len() == 0) ==> (
            r matches Ok(issued) && forall|x: Seq<char>| #[trigger]
                issued.contains(x) <==> text::words(scope).contains(x))
            &&& requested matches Some(asked) ==> (text::words(asked).len() > 0 && (forall|i: int|
                0 <= i < text::words(asked).len() ==> text::words(scope).contains(
                    #[trigger] text::words(asked)[i],
                )) ==> (r matches Ok(issued) && forall|x: Seq<char>| #[trigger]
                issued.contains(x) <==> text::words(asked).contains(x)))
        }),
{
    let words = text::words(scope);
    law_distinct_keeps_every_scope_once(words);
    assert(words.contains(words[0]));
    assert(distinct(words).contains(words[0]));
    law_an_assertion_is_refused_for_the_first_reason(
        true,
        Some(client),
        Some(scope),
        client,
        true,
        requested,
    );
    if requested is Some {
        let asked = text::words(requested->0);
        law_distinct_keeps_every_scope_once(asked);
        if asked.len() > 0 {
            assert(asked.contains(asked[0]));
            assert(distinct(asked).contains(asked[0]));
        }
        if distinct(asked).len() > 0 {
            assert(distinct(asked).contains(distinct(asked)[0]));
        }
    }
}

} // verus!
