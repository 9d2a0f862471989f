//! The published key sets: that of an environment, and that of one session-token template.
//!
//! A verifier fetches a key set, caches it, and needs nothing else to check a token. So a store
//! that cannot answer is bridged by the rows that were read last, for as long as they may be
//! cached and no longer. What is published is decided anew for every request: a key is in the set
//! from its publication until it expires. And a set without keys is never published, for a
//! verifier would take it for the answer.

use std::sync::Arc;

use vstd::prelude::*;

use crate::reply;
use crate::reply::Reply;
use crate::scope_map;
use crate::scope_map::{KeyMap, MapKey, Scope};
use crate::text;

verus! {

/// The media type of a key set.
pub const JWK_SET_MEDIA_TYPE: &'static str = "application/jwk-set+json";

// ---------------------------------------------------------------------------
// Rows
// ---------------------------------------------------------------------------

/// A key of a template: when it is published, and when it expires.
#[derive(Debug, PartialEq, Eq)]
pub struct TemplateKey<K> {
    pub publish_at_unix_micros: i64,
    pub expire_at_unix_micros: Option<i64>,
    pub key: Arc<K>,
}

impl<K> TemplateKey<K> {
    /// The key is published at this time.
    pub open spec fn published_at(self, now: i64) -> bool {
        &&& self.publish_at_unix_micros <= now
        &&& match self.expire_at_unix_micros {
            Some(expire) => expire > now,
            None => true,
        }
    }

    /// The same row, for another holder.
    pub fn shared(&self) -> (r: TemplateKey<K>)
        ensures
            r == *self,
    {
        TemplateKey {
            publish_at_unix_micros: self.publish_at_unix_micros,
            expire_at_unix_micros: self.expire_at_unix_micros,
            key: self.key.clone(),
        }
    }

    /// Whether the key is published at this time.
    pub fn is_published(&self, now_micros: i64) -> (r: bool)
        ensures
            r == self.published_at(now_micros),
    {
        self.publish_at_unix_micros <= now_micros && match self.expire_at_unix_micros {
            Some(expire) => expire > now_micros,
            None => true,
        }
    }
}

/// The keys that are published at this time, in order.
pub open spec fn published<K>(keys: Seq<TemplateKey<K>>, now: i64) -> Seq<TemplateKey<K>> {
    keys.filter(|k: TemplateKey<K>| k.published_at(now))
}

/// The keys that are published at this time, in order.
pub fn published_keys<K>(keys: &Vec<TemplateKey<K>>, now_micros: i64) -> (r: Vec<
    TemplateKey<K>,
>)
    ensures
        r@ == published(keys@, now_micros),
{
    let ghost f = |k: TemplateKey<K>| k.published_at(now_micros);
    let mut r: Vec<TemplateKey<K>> = Vec::new();
    let mut i: usize = 0;
    assert(keys@.take(0).filter(f) =~= Seq::empty()) by {
        reveal(Seq::filter);
    }
    while i < keys.len()
        invariant
            i <= keys@.len(),
            f == (|k: TemplateKey<K>| k.published_at(now_micros)),
            r@ == keys@.take(i as int).filter(f),
        decreases keys@.len() - i,
    {
        proof {
            reveal(Seq::filter);
            assert(keys@.take(i + 1).drop_last() =~= keys@.take(i as int));
        }
        if keys[i].is_published(now_micros) {
            r.push(keys[i].shared());
        }
        i = i + 1;
    }
    assert(keys@.take(keys@.len() as int) =~= keys@);
    r
}

// ---------------------------------------------------------------------------
// The cache of rows
// ---------------------------------------------------------------------------

/// A template of an environment.
#[derive(Debug, PartialEq, Eq)]
pub struct TemplateName {
    pub scope: Scope,
    pub template: String,
}

/// The model of a [`TemplateName`].
pub struct TemplateNameView {
    pub scope: scope_map::ScopeView,
    pub template: Seq<char>,
}

impl View for TemplateName {
    type V = TemplateNameView;

    open spec fn view(&self) -> TemplateNameView {
        TemplateNameView { scope: self.scope@, template: self.template@ }
    }
}

impl MapKey for TemplateName {
    fn is(&self, other: &TemplateName) -> (r: bool) {
        self.scope.is(&other.scope) && text::same(self.template.as_str(), other.template.as_str())
    }
}

/// The rows of a template, and when they were read.
#[derive(Debug, PartialEq, Eq)]
pub struct CachedTemplateKeys<K> {
    pub keys: Vec<TemplateKey<K>>,
    pub read_at: i128,
}

/// What was read at `read_at` may be used at `now`.
pub open spec fn usable(ttl: i128, read_at: i128, now: i128) -> bool {
    0 <= now - read_at < ttl
}

/// What was remembered of a template, where it may be used.
pub open spec fn usable_entry<K>(
    cache: Map<TemplateNameView, CachedTemplateKeys<K>>,
    name: TemplateNameView,
    ttl: i128,
    now: i128,
) -> Option<CachedTemplateKeys<K>> {
    if cache.contains_key(name) && usable(ttl, cache[name].read_at, now) {
        Some(cache[name])
    } else {
        None
    }
}

/// The rows that may be used for a template.
pub open spec fn usable_rows<K>(
    cache: Map<TemplateNameView, CachedTemplateKeys<K>>,
    name: TemplateNameView,
    ttl: i128,
    now: i128,
) -> Option<Seq<TemplateKey<K>>> {
    match usable_entry(cache, name, ttl, now) {
        Some(entry) => Some(entry.keys@),
        None => None,
    }
}

/// The rows of the templates as they were read last.
pub struct TemplateCache<K> {
    rows: KeyMap<TemplateName, CachedTemplateKeys<K>>,
    ttl: i128,
}

impl<K> View for TemplateCache<K> {
    type V = Map<TemplateNameView, CachedTemplateKeys<K>>;

    closed spec fn view(&self) -> Map<TemplateNameView, CachedTemplateKeys<K>> {
        self.rows@
    }
}

/// How a read of the store ended.
#[derive(Debug, PartialEq, Eq)]
pub enum Read<T> {
    /// With this.
    Answer(T),
    /// The store could not answer.
    Unreachable,
    /// The store answered, and what it answered is broken.
    Broken,
}

/// What follows a read.
#[derive(Debug, PartialEq, Eq)]
pub enum TemplateStep<K> {
    /// The rows of the template are read.
    ReadKeys,
    /// These keys are published. The store answered with them at `read_at`; `remembered` says that
    /// this was for an earlier request.
    Publish { keys: Vec<TemplateKey<K>>, read_at: i128, remembered: bool },
    /// There is no such key set.
    NotFound,
    /// The key set cannot be had now.
    ServerError,
}

/// The keys are to be published, and those are exactly the ones that are at this time; there is
/// at least one. When the store answered with them goes along.
pub open spec fn publishes<K>(
    step: TemplateStep<K>,
    rows: Seq<TemplateKey<K>>,
    read_at: i128,
    remembered: bool,
    now: i64,
) -> bool {
    if published(rows, now).len() == 0 {
        step is ServerError
    } else {
        step matches TemplateStep::Publish { keys, read_at: at, remembered: was } && keys@
            == published(rows, now) && at == read_at && was == remembered
    }
}

/// What is published from what was remembered, if it may be used.
pub open spec fn publishes_cached<K>(
    step: TemplateStep<K>,
    entry: Option<CachedTemplateKeys<K>>,
    now: i64,
) -> bool {
    match entry {
        Some(e) => publishes(step, e.keys@, e.read_at, true, now),
        None => step is ServerError,
    }
}

/// What is published from these rows.
fn publish_from<K>(
    rows: &Vec<TemplateKey<K>>,
    read_at: i128,
    remembered: bool,
    now_micros: i64,
) -> (r: TemplateStep<K>)
    ensures
        publishes(r, rows@, read_at, remembered, now_micros),
{
    let keys = published_keys(rows, now_micros);
    if keys.len() == 0 {
        TemplateStep::ServerError
    } else {
        TemplateStep::Publish { keys, read_at, remembered }
    }
}

/// What is remembered once keys were published: those that the store answered with just now, from
/// when it did. What was remembered before keeps its moment.
pub open spec fn remembers<K>(
    cache: Map<TemplateNameView, CachedTemplateKeys<K>>,
    name: TemplateNameView,
    entry: CachedTemplateKeys<K>,
    remembered: bool,
) -> Map<TemplateNameView, CachedTemplateKeys<K>> {
    if remembered || entry.keys@.len() == 0 {
        cache
    } else {
        cache.insert(name, entry)
    }
}

impl<K> TemplateCache<K> {
    /// How long the rows may be used, in nanoseconds.
    pub closed spec fn spec_ttl(&self) -> i128 {
        self.ttl
    }

    /// A cache that holds nothing, and what it will hold for this many nanoseconds.
    pub fn new(ttl: i128) -> (r: TemplateCache<K>)
        ensures
            r@ == Map::<TemplateNameView, CachedTemplateKeys<K>>::empty(),
            r.spec_ttl() == ttl,
    {
        TemplateCache { rows: KeyMap::new(), ttl }
    }

    /// The rows that may be used for a template. What is stale is never used: a key that was
    /// withdrawn would be trusted for longer.
    pub fn fresh_template_keys(&self, name: &TemplateName, now: i128) -> (r: Option<
        &Vec<TemplateKey<K>>,
    >)
        ensures
            match r {
                Some(keys) => usable_rows(self@, name@, self.spec_ttl(), now) == Some(keys@),
                None => usable_rows(self@, name@, self.spec_ttl(), now) is None,
            },
    {
        match self.fresh_entry(name, now) {
            Some(cached) => Some(&cached.keys),
            None => None,
        }
    }

    /// What was remembered of a template, where it may be used.
    fn fresh_entry(&self, name: &TemplateName, now: i128) -> (r: Option<&CachedTemplateKeys<K>>)
        ensures
            match r {
                Some(cached) => usable_entry(self@, name@, self.spec_ttl(), now) == Some(*cached),
                None => usable_entry(self@, name@, self.spec_ttl(), now) is None,
            },
    {
        match self.rows.get(name) {
            Some(cached) => match now.checked_sub(cached.read_at) {
                Some(age) => if 0 <= age && age < self.ttl {
                    Some(cached)
                } else {
                    None
                },
                None => None,
            },
            None => None,
        }
    }

    /// Remembers the rows of a template. Rows without a key are not remembered.
    pub fn remember_template_keys(
        &mut self,
        name: TemplateName,
        keys: Vec<TemplateKey<K>>,
        now: i128,
    )
        ensures
            final(self).spec_ttl() == old(self).spec_ttl(),
            final(self)@ == (if keys@.len() == 0 {
                old(self)@
            } else {
                old(self)@.insert(name@, CachedTemplateKeys { keys, read_at: now })
            }),
    {
        if keys.len() == 0 {
            return;
        }
        self.rows.insert(name, CachedTemplateKeys { keys, read_at: now });
    }

    /// What is published where the store could not answer.
    fn publish_cached(&self, name: &TemplateName, now: i128, now_micros: i64) -> (r: TemplateStep<K>)
        ensures
            publishes_cached(r, usable_entry(self@, name@, self.spec_ttl(), now), now_micros),
    {
        match self.fresh_entry(name, now) {
            Some(cached) => publish_from(&cached.keys, cached.read_at, true, now_micros),
            None => TemplateStep::ServerError,
        }
    }

    /// What follows once it was read whether there is such a template. One that is not there has
    /// no key set, not an empty one.
    pub fn template_read(
        &self,
        name: &TemplateName,
        now: i128,
        now_micros: i64,
        found: Read<bool>,
    ) -> (r: TemplateStep<K>)
        ensures
            match found {
                Read::Answer(true) => r is ReadKeys,
                Read::Answer(false) => r is NotFound,
                Read::Unreachable => publishes_cached(
                    r,
                    usable_entry(self@, name@, self.spec_ttl(), now),
                    now_micros,
                ),
                Read::Broken => r is ServerError,
            },
    {
        match found {
            Read::Answer(true) => TemplateStep::ReadKeys,
            Read::Answer(false) => TemplateStep::NotFound,
            Read::Unreachable => self.publish_cached(name, now, now_micros),
            Read::Broken => TemplateStep::ServerError,
        }
    }

    /// What follows once the rows of the template were read. Only a store that could not answer
    /// is bridged: rows that are broken are a fault.
    pub fn keys_read(
        &self,
        name: &TemplateName,
        now: i128,
        now_micros: i64,
        rows: Read<Vec<TemplateKey<K>>>,
    ) -> (r: TemplateStep<K>)
        ensures
            match rows {
                Read::Answer(list) => publishes(r, list@, now, false, now_micros),
                Read::Unreachable => publishes_cached(
                    r,
                    usable_entry(self@, name@, self.spec_ttl(), now),
                    now_micros,
                ),
                Read::Broken => r is ServerError,
            },
    {
        match rows {
            Read::Answer(list) => publish_from(&list, now, false, now_micros),
            Read::Unreachable => self.publish_cached(name, now, now_micros),
            Read::Broken => TemplateStep::ServerError,
        }
    }

    /// What is answered once the keys were rendered, and what is remembered by that: nothing where
    /// they could not be rendered, and nothing new where they were remembered before.
    pub fn rendered(
        &mut self,
        name: TemplateName,
        keys: Vec<TemplateKey<K>>,
        read_at: i128,
        remembered: bool,
        body: Option<String>,
    ) -> (r: JwksAnswer)
        ensures
            final(self).spec_ttl() == old(self).spec_ttl(),
            match body {
                Some(text) => {
                    &&& r == JwksAnswer::Document(text)
                    &&& final(self)@ == remembers(
                        old(self)@,
                        name@,
                        CachedTemplateKeys { keys, read_at },
                        remembered,
                    )
                },
                None => r is ServerError && final(self)@ == old(self)@,
            },
    {
        match body {
            Some(text) => {
                if !remembered {
                    self.remember_template_keys(name, keys, read_at);
                }
                JwksAnswer::Document(text)
            },
            None => JwksAnswer::ServerError,
        }
    }
}

/// What a request for a key set is answered.
#[derive(Debug, PartialEq, Eq)]
pub enum JwksAnswer {
    /// This document, which may be cached.
    Document(String),
    /// There is no such key set.
    NotFound,
    /// The key set cannot be had.
    ServerError,
}

/// What a request for the key set of an environment is answered: `rendered` is absent where the
/// environment has no issuer, and holds nothing where a stored key is broken.
pub fn jwks(scope_known: bool, rendered: Option<Option<String>>) -> (r: JwksAnswer)
    ensures
        r == (if !scope_known {
            JwksAnswer::NotFound
        } else {
            match rendered {
                Some(Some(body)) => JwksAnswer::Document(body),
                Some(None) => JwksAnswer::ServerError,
                None => JwksAnswer::NotFound,
            }
        }),
{
    if !scope_known {
        return JwksAnswer::NotFound;
    }
    match rendered {
        Some(Some(body)) => JwksAnswer::Document(body),
        Some(None) => JwksAnswer::ServerError,
        None => JwksAnswer::NotFound,
    }
}

/// What a request for the key set of a template comes to before anything is read: without such a
/// scope, and without a store, there is none.
pub fn template_jwks(scope_known: bool, store_present: bool) -> (r: Option<JwksAnswer>)
    ensures
        r == (if scope_known && store_present {
            None::<JwksAnswer>
        } else {
            Some(JwksAnswer::NotFound)
        }),
{
    if scope_known && store_present {
        None
    } else {
        Some(JwksAnswer::NotFound)
    }
}

/// The answer to a fault.
pub fn server_error() -> (r: Reply)
    ensures
        r@ == (reply::ReplyView {
            status: 500,
            headers: seq![("content-type"@, "text/plain; charset=utf-8"@)],
            body: "server error\n"@,
        }),
{
    Reply {
        status: 500,
        headers: reply::content_type("text/plain; charset=utf-8"),
        body: "server error\n".to_owned(),
    }
}

// ---------------------------------------------------------------------------
// Laws
// ---------------------------------------------------------------------------

proof fn lemma_published<K>(keys: Seq<TemplateKey<K>>, now: i64)
    ensures
        forall|i: int|
            0 <= i < published(keys, now).len() ==> (#[trigger] published(keys, now)[i]).published_at(
                now,
            ) && keys.contains(published(keys, now)[i]),
    decreases keys.len(),
{
    let f = |k: TemplateKey<K>| k.published_at(now);
    reveal(Seq::filter);
    if keys.len() > 0 {
        lemma_published(keys.drop_last(), now);
        let rest = published(keys.drop_last(), now);
        assert forall|i: int| 0 <= i < published(keys, now).len() implies (
        #[trigger] published(keys, now)[i]).published_at(now) && keys.contains(
            published(keys, now)[i],
        ) by {
            if i < rest.len() {
                assert(published(keys, now)[i] == rest[i]);
                assert(keys.drop_last().contains(rest[i]));
                let k = choose|k: int|
                    0 <= k < keys.drop_last().len() && keys.drop_last()[k] == rest[i];
                assert(keys[k] == rest[i]);
            } else {
                assert(published(keys, now)[i] == keys.last());
                assert(keys[keys.len() - 1] == keys.last());
            }
        }
    }
}

/// A key set that is published has a key, and every key in it is one that is published at that
/// very time, also where the rows were remembered: a key that was withdrawn meanwhile is not in
/// it.
pub proof fn law_only_published_keys_are_published<K>(
    step: TemplateStep<K>,
    rows: Seq<TemplateKey<K>>,
    read_at: i128,
    remembered: bool,
    now: i64,
)
    requires
        publishes(step, rows, read_at, remembered, now),
    ensures
        step matches TemplateStep::Publish { keys, .. } ==> keys@.len() > 0 && forall|i: int|
            0 <= i < keys@.len() ==> (#[trigger] keys@[i]).published_at(now) && rows.contains(
                keys@[i],
            ),
{
    lemma_published(rows, now);
    if let TemplateStep::Publish { keys, .. } = step {
        assert(keys@ == published(rows, now));
        assert forall|i: int| 0 <= i < keys@.len() implies (#[trigger] keys@[i]).published_at(now)
            && rows.contains(keys@[i]) by {
            assert(published(rows, now)[i] == keys@[i]);
        }
    }
}

/// What is stale is not used, and nothing is where the clock went back.
pub proof fn law_stale_rows_are_not_used<K>(
    cache: Map<TemplateNameView, CachedTemplateKeys<K>>,
    name: TemplateNameView,
    ttl: i128,
    now: i128,
)
    requires
        cache.contains_key(name),
        now < cache[name].read_at || now - cache[name].read_at >= ttl,
    ensures
        usable_rows(cache, name, ttl, now) is None,
{
}

/// Keys that were published for a template.
pub struct Publication<K> {
    pub name: TemplateNameView,
    pub entry: CachedTemplateKeys<K>,
    pub remembered: bool,
}

/// What is remembered once all of these were published, one after the other.
pub open spec fn after_all<K>(
    cache: Map<TemplateNameView, CachedTemplateKeys<K>>,
    made: Seq<Publication<K>>,
) -> Map<TemplateNameView, CachedTemplateKeys<K>>
    decreases made.len(),
{
    if made.len() == 0 {
        cache
    } else {
        remembers(
            after_all(cache, made.drop_last()),
            made.last().name,
            made.last().entry,
            made.last().remembered,
        )
    }
}

/// What is known of this template was answered by the store at `t` at the latest.
pub open spec fn answered_by<K>(
    cache: Map<TemplateNameView, CachedTemplateKeys<K>>,
    name: TemplateNameView,
    t: i128,
) -> bool {
    cache.contains_key(name) ==> cache[name].read_at <= t
}

proof fn lemma_nothing_is_stamped_anew<K>(
    cache: Map<TemplateNameView, CachedTemplateKeys<K>>,
    made: Seq<Publication<K>>,
    name: TemplateNameView,
    t: i128,
)
    requires
        answered_by(cache, name, t),
        forall|i: int|
            0 <= i < made.len() && (#[trigger] made[i]).name == name && !made[i].remembered
                ==> made[i].entry.read_at <= t,
    ensures
        answered_by(after_all(cache, made), name, t),
    decreases made.len(),
{
    if made.len() > 0 {
        let rest = made.drop_last();
        assert forall|i: int|
            0 <= i < rest.len() && (#[trigger] rest[i]).name == name
                && !rest[i].remembered implies rest[i].entry.read_at <= t by {
            assert(made[i] == rest[i]);
        }
        lemma_nothing_is_stamped_anew(cache, rest, name, t);
        assert(made[made.len() - 1] == made.last());
    }
}

/// An outage that outlasts the window closes the surface, however many requests came in between:
/// where the store answered for a template at `t` at the latest, and cannot be reached at `t` and
/// the window or later, nothing is published.
pub proof fn law_an_outage_closes_the_surface<K>(
    cache: Map<TemplateNameView, CachedTemplateKeys<K>>,
    made: Seq<Publication<K>>,
    name: TemplateNameView,
    ttl: i128,
    t: i128,
    now: i128,
    now_micros: i64,
    step: TemplateStep<K>,
)
    requires
        answered_by(cache, name, t),
        forall|i: int|
            0 <= i < made.len() && (#[trigger] made[i]).name == name && !made[i].remembered
                ==> made[i].entry.read_at <= t,
        now >= t + ttl,
        publishes_cached(step, usable_entry(after_all(cache, made), name, ttl, now), now_micros),
    ensures
        step is ServerError,
{
    lemma_nothing_is_stamped_anew(cache, made, name, t);
}

/// A key is published from its publication until it expires, and for ever where it does not.
pub proof fn law_a_key_is_published_for_its_time<K>(key: TemplateKey<K>, now: i64)
    ensures
        now < key.publish_at_unix_micros ==> !key.published_at(now),
        key.publish_at_unix_micros <= now && key.expire_at_unix_micros is None ==> key.published_at(now),
        key.expire_at_unix_micros matches Some(expire) ==> (now >= expire ==> !key.published_at(now)),
        key.expire_at_unix_micros matches Some(expire) ==> (key.publish_at_unix_micros <= now < expire
            ==> key.published_at(now)),
{
}

/// Every key of a template whose time it is stands in the set, in the order of the rows, and no
/// other.
pub proof fn law_every_key_whose_time_it_is_is_published<K>(
    keys: Seq<TemplateKey<K>>,
    next: TemplateKey<K>,
    now: i64,
)
    ensures
        published(Seq::<TemplateKey<K>>::empty(), now).len() == 0,
        next.published_at(now) ==> published(keys.push(next), now) == published(keys, now).push(next),
        !next.published_at(now) ==> published(keys.push(next), now) == published(keys, now),
{
    reveal(Seq::filter);
    assert(keys.push(next).drop_last() =~= keys);
    assert(keys.push(next).last() == next);
}

/// Rows are used from when the store answered with them until their time is over.
pub proof fn law_fresh_rows_are_used<K>(
    cache: Map<TemplateNameView, CachedTemplateKeys<K>>,
    name: TemplateNameView,
    ttl: i128,
    now: i128,
)
    ensures
        cache.contains_key(name) && cache[name].read_at <= now < cache[name].read_at + ttl ==> usable_entry(
            cache,
            name,
            ttl,
            now,
        ) == Some(cache[name]) && usable_rows(cache, name, ttl, now) == Some(cache[name].keys@),
        !cache.contains_key(name) ==> usable_entry(cache, name, ttl, now) is None && usable_rows(
            cache,
            name,
            ttl,
            now,
        ) is None,
{
}

/// Where a key of the rows is published at this time the set is, with when the store answered and
/// whether that was for an earlier request; where none is, and where the store cannot be reached and
/// nothing is remembered, the set cannot be had.
pub proof fn law_a_set_with_a_key_is_published<K>(
    step: TemplateStep<K>,
    rows: Seq<TemplateKey<K>>,
    read_at: i128,
    remembered: bool,
    now: i64,
)
    requires
        publishes(step, rows, read_at, remembered, now),
    ensures
        (exists|i: int| 0 <= i < rows.len() && (#[trigger] rows[i]).published_at(now)) ==> (
        step matches TemplateStep::Publish { keys, read_at: at, remembered: was } && at == read_at && was
            == remembered && keys@ == published(rows, now)),
        (forall|i: int| 0 <= i < rows.len() ==> !(#[trigger] rows[i]).published_at(now))
            ==> step is ServerError,
{
    lemma_some_published(rows, now);
    lemma_published(rows, now);
    let set = published(rows, now);
    if set.len() > 0 {
        assert(set[0].published_at(now) && rows.contains(set[0]));
        let k = choose|k: int| 0 <= k < rows.len() && rows[k] == set[0];
        assert(rows[k].published_at(now));
    }
}

proof fn lemma_some_published<K>(keys: Seq<TemplateKey<K>>, now: i64)
    ensures
        (exists|i: int| 0 <= i < keys.len() && (#[trigger] keys[i]).published_at(now)) ==> published(
            keys,
            now,
        ).len() > 0,
    decreases keys.len(),
{
    reveal(Seq::filter);
    if keys.len() > 0 {
        let front = keys.drop_last();
        lemma_some_published(front, now);
        if exists|i: int| 0 <= i < keys.len() && (#[trigger] keys[i]).published_at(now) {
            let i = choose|i: int| 0 <= i < keys.len() && (#[trigger] keys[i]).published_at(now);
            if i < front.len() {
                assert(front[i].published_at(now));
            }
        }
    }
}

/// Where the store cannot be reached, what it answered last is published while that is fresh, as
/// remembered and from when it answered; nothing is where there is none.
pub proof fn law_an_outage_is_bridged_by_what_is_remembered<K>(
    step: TemplateStep<K>,
    cache: Map<TemplateNameView, CachedTemplateKeys<K>>,
    name: TemplateNameView,
    ttl: i128,
    at: i128,
    now: i64,
)
    requires
        publishes_cached(step, usable_entry(cache, name, ttl, at), now),
    ensures
        !cache.contains_key(name) ==> step is ServerError,
        cache.contains_key(name) && cache[name].read_at <= at < cache[name].read_at + ttl && (exists|
            i: int,
        |
            0 <= i < cache[name].keys@.len() && (#[trigger] cache[name].keys@[i]).published_at(now)) ==> (
        step matches TemplateStep::Publish { keys, read_at, remembered } && remembered && read_at
            == cache[name].read_at && keys@ == published(cache[name].keys@, now)),
{
    if cache.contains_key(name) {
        lemma_some_published(cache[name].keys@, now);
    }
}

/// Keys that the store answered with just now are remembered for their template, and for no other;
/// those that were remembered before, and none at all, change nothing.
pub proof fn law_what_the_store_answered_is_remembered<K>(
    cache: Map<TemplateNameView, CachedTemplateKeys<K>>,
    name: TemplateNameView,
    other: TemplateNameView,
    entry: CachedTemplateKeys<K>,
)
    ensures
        entry.keys@.len() > 0 ==> remembers(cache, name, entry, false).contains_key(name) && remembers(
            cache,
            name,
            entry,
            false,
        )[name] == entry,
        entry.keys@.len() == 0 ==> remembers(cache, name, entry, false) == cache,
        remembers(cache, name, entry, true) == cache,
        other != name ==> (remembers(cache, name, entry, false).contains_key(other)
            <==> cache.contains_key(other)),
        other != name && cache.contains_key(other) ==> remembers(cache, name, entry, false)[other]
            == cache[other],
{
}

} // verus!
