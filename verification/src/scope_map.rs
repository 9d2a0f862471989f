//! Scopes, and maps from keys to values.

use vstd::prelude::*;

use crate::text;

verus! {

/// A tenant and one of its environments.
pub struct ScopeView {
    pub tenant: Seq<char>,
    pub environment: Seq<char>,
}

/// A tenant and one of its environments.
#[derive(Debug, PartialEq, Eq)]
pub struct Scope {
    pub tenant: String,
    pub environment: String,
}

impl View for Scope {
    type V = ScopeView;

    open spec fn view(&self) -> ScopeView {
        ScopeView { tenant: self.tenant@, environment: self.environment@ }
    }
}

/// A key of a map: two of them are compared by what they stand for.
pub trait MapKey: View + Sized {
    /// Whether two keys are the same.
    fn is(&self, other: &Self) -> (r: bool)
        ensures
            r == (self@ == other@),
    ;
}

impl MapKey for Scope {
    fn is(&self, other: &Scope) -> (r: bool) {
        text::same(self.tenant.as_str(), other.tenant.as_str()) && text::same(
            self.environment.as_str(),
            other.environment.as_str(),
        )
    }
}

impl Scope {
    /// The scope of these two.
    pub fn new(tenant: &str, environment: &str) -> (r: Scope)
        ensures
            r@ == (ScopeView { tenant: tenant@, environment: environment@ }),
    {
        Scope { tenant: tenant.to_owned(), environment: environment.to_owned() }
    }

    /// A copy.
    pub fn copied(&self) -> (r: Scope)
        ensures
            r@ == self@,
    {
        Scope { tenant: self.tenant.clone(), environment: self.environment.clone() }
    }
}

/// The entry at `i` is the one of `key`.
spec fn entry_at<K: MapKey, V>(e: Seq<(K, V)>, i: int, key: <K as View>::V) -> bool {
    0 <= i < e.len() && e[i].0@ == key
}

spec fn entries_map<K: MapKey, V>(e: Seq<(K, V)>) -> Map<<K as View>::V, V> {
    Map::new(
        |s: <K as View>::V| exists|i: int| #[trigger] entry_at(e, i, s),
        |s: <K as View>::V| e[choose|i: int| #[trigger] entry_at(e, i, s)].1,
    )
}

/// No key has two entries.
spec fn unique<K: MapKey, V>(e: Seq<(K, V)>) -> bool {
    forall|i: int, j: int|
        0 <= i < j < e.len() ==> (#[trigger] e[i]).0@ != (#[trigger] e[j]).0@
}

/// A map from keys to values. Keys are compared by what they stand for.
pub struct KeyMap<K: MapKey, V> {
    entries: Vec<(K, V)>,
}

proof fn lemma_entry<K: MapKey, V>(e: Seq<(K, V)>, i: int)
    requires
        unique(e),
        0 <= i < e.len(),
    ensures
        entries_map(e).contains_key(e[i].0@),
        entries_map(e)[e[i].0@] == e[i].1,
{
    let s = e[i].0@;
    assert(entry_at(e, i, s));
    let k = choose|k: int| #[trigger] entry_at(e, k, s);
    assert(entry_at(e, k, s));
    if k < i {
        assert(e[k].0@ != e[i].0@);
    } else if i < k {
        assert(e[i].0@ != e[k].0@);
    }
}

proof fn lemma_absent<K: MapKey, V>(e: Seq<(K, V)>, key: <K as View>::V)
    requires
        forall|k: int| 0 <= k < e.len() ==> (#[trigger] e[k]).0@ != key,
    ensures
        !entries_map(e).contains_key(key),
{
    if entries_map(e).contains_key(key) {
        let k = choose|k: int| #[trigger] entry_at(e, k, key);
        assert(entry_at(e, k, key));
    }
}

proof fn lemma_pushed<K: MapKey, V>(e: Seq<(K, V)>, p: (K, V))
    requires
        unique(e),
        forall|k: int| 0 <= k < e.len() ==> (#[trigger] e[k]).0@ != p.0@,
    ensures
        unique(e.push(p)),
        entries_map(e.push(p)) == entries_map(e).insert(p.0@, p.1),
{
    let a = e.push(p);
    assert forall|s: <K as View>::V| #[trigger] entries_map(a).contains_key(s) <==> entries_map(
        e,
    ).insert(p.0@, p.1).contains_key(s) by {
        if entries_map(a).contains_key(s) {
            let k = choose|k: int| #[trigger] entry_at(a, k, s);
            assert(entry_at(a, k, s));
            if k < e.len() {
                assert(entry_at(e, k, s));
            }
        }
        if entries_map(e).contains_key(s) {
            let k = choose|k: int| #[trigger] entry_at(e, k, s);
            assert(entry_at(a, k, s));
        }
        if s == p.0@ {
            assert(entry_at(a, e.len() as int, s));
        }
    }
    assert forall|s: <K as View>::V| entries_map(a).contains_key(s) implies #[trigger] entries_map(a)[s]
        == entries_map(e).insert(p.0@, p.1)[s] by {
        let k = choose|k: int| #[trigger] entry_at(a, k, s);
        assert(entry_at(a, k, s));
        lemma_entry(a, k);
        if k < e.len() {
            assert(a[k] == e[k]);
            lemma_entry(e, k);
        }
    }
    assert(entries_map(a) =~= entries_map(e).insert(p.0@, p.1));
}

proof fn lemma_removed<K: MapKey, V>(e: Seq<(K, V)>, i: int)
    requires
        unique(e),
        0 <= i < e.len(),
    ensures
        unique(e.remove(i)),
        entries_map(e.remove(i)) == entries_map(e).remove(e[i].0@),
        forall|k: int| 0 <= k < e.len() - 1 ==> (#[trigger] e.remove(i)[k]).0@ != e[i].0@,
{
    let a = e.remove(i);
    assert forall|k: int, l: int| 0 <= k < l < a.len() implies (#[trigger] a[k]).0@ != (
    #[trigger] a[l]).0@ by {
        let m = if k < i {
            k
        } else {
            k + 1
        };
        let n = if l < i {
            l
        } else {
            l + 1
        };
        assert(a[k] == e[m] && a[l] == e[n]);
    }
    assert forall|k: int| 0 <= k < a.len() implies (#[trigger] a[k]).0@ != e[i].0@ by {
        if k < i {
            assert(a[k] == e[k]);
        } else {
            assert(a[k] == e[k + 1]);
        }
    }
    assert forall|s: <K as View>::V| #[trigger] entries_map(a).contains_key(s) <==> entries_map(
        e,
    ).remove(e[i].0@).contains_key(s) by {
        if entries_map(a).contains_key(s) {
            let k = choose|k: int| #[trigger] entry_at(a, k, s);
            assert(entry_at(a, k, s));
            if k < i {
                assert(entry_at(e, k, s));
            } else {
                assert(entry_at(e, k + 1, s));
            }
        }
        if entries_map(e).contains_key(s) && s != e[i].0@ {
            let k = choose|k: int| #[trigger] entry_at(e, k, s);
            assert(entry_at(e, k, s));
            if k < i {
                assert(entry_at(a, k, s));
            } else {
                assert(entry_at(a, k - 1, s));
            }
        }
    }
    assert forall|s: <K as View>::V| entries_map(a).contains_key(s) implies #[trigger] entries_map(a)[s]
        == entries_map(e).remove(e[i].0@)[s] by {
        let k = choose|k: int| #[trigger] entry_at(a, k, s);
        assert(entry_at(a, k, s));
        lemma_entry(a, k);
        let m = if k < i {
            k
        } else {
            k + 1
        };
        assert(a[k] == e[m]);
        lemma_entry(e, m);
    }
    assert(entries_map(a) =~= entries_map(e).remove(e[i].0@));
}

proof fn lemma_count<K: MapKey, V>(e: Seq<(K, V)>)
    requires
        unique(e),
    ensures
        entries_map(e).dom().finite(),
        entries_map(e).dom().len() == e.len(),
    decreases e.len(),
{
    if e.len() == 0 {
        assert(entries_map(e).dom() =~= Set::empty()) by {
            assert forall|s: <K as View>::V| !entries_map(e).dom().contains(s) by {
                if entries_map(e).contains_key(s) {
                    let k = choose|k: int| #[trigger] entry_at(e, k, s);
                    assert(entry_at(e, k, s));
                }
            }
        }
    } else {
        let f = e.drop_last();
        lemma_count(f);
        assert(f.push(e.last()) =~= e);
        assert forall|k: int| 0 <= k < f.len() implies (#[trigger] f[k]).0@ != e.last().0@ by {
            assert(f[k] == e[k]);
            assert(e[e.len() - 1] == e.last());
        }
        lemma_pushed(f, e.last());
        lemma_absent(f, e.last().0@);
        assert(entries_map(e).dom() =~= entries_map(f).dom().insert(e.last().0@));
    }
}

impl<K: MapKey, V> View for KeyMap<K, V> {
    type V = Map<<K as View>::V, V>;

    closed spec fn view(&self) -> Map<<K as View>::V, V> {
        entries_map(self.entries@)
    }
}

impl<K: MapKey, V> KeyMap<K, V> {
    #[verifier::type_invariant]
    spec fn keyed(self) -> bool {
        unique(self.entries@)
    }

    /// An empty map.
    pub fn new() -> (r: KeyMap<K, V>)
        ensures
            r@ == Map::<<K as View>::V, V>::empty(),
    {
        let r = KeyMap { entries: Vec::new() };
        proof {
            assert forall|s: <K as View>::V| !r@.contains_key(s) by {
                lemma_absent(r.entries@, s);
            }
            assert(r@ =~= Map::<<K as View>::V, V>::empty());
        }
        r
    }

    /// How many keys have a value.
    pub fn len(&self) -> (n: usize)
        ensures
            self@.dom().finite(),
            n == self@.dom().len(),
    {
        proof {
            use_type_invariant(self);
            lemma_count(self.entries@);
        }
        self.entries.len()
    }

    /// The place of a key.
    fn place(&self, key: &K) -> (r: Option<usize>)
        ensures
            match r {
                Some(i) => i < self.entries@.len() && self.entries@[i as int].0@ == key@,
                None => forall|k: int|
                    0 <= k < self.entries@.len() ==> (#[trigger] self.entries@[k]).0@ != key@,
            },
    {
        let mut i: usize = 0;
        while i < self.entries.len()
            invariant
                i <= self.entries@.len(),
                forall|k: int| 0 <= k < i ==> (#[trigger] self.entries@[k]).0@ != key@,
            decreases self.entries@.len() - i,
        {
            if self.entries[i].0.is(key) {
                return Some(i);
            }
            i = i + 1;
        }
        None
    }

    /// The value of a key.
    pub fn get(&self, key: &K) -> (r: Option<&V>)
        ensures
            match r {
                Some(v) => self@.contains_key(key@) && *v == self@[key@],
                None => !self@.contains_key(key@),
            },
    {
        proof {
            use_type_invariant(self);
        }
        match self.place(key) {
            Some(i) => {
                proof {
                    lemma_entry(self.entries@, i as int);
                }
                Some(&self.entries[i].1)
            },
            None => {
                proof {
                    lemma_absent(self.entries@, key@);
                }
                None
            },
        }
    }

    /// Takes out the value of a key, if it has one.
    pub fn remove(&mut self, key: &K)
        ensures
            final(self)@ == old(self)@.remove(key@),
    {
        proof {
            use_type_invariant(&*self);
        }
        let place = self.place(key);
        let mut e: Vec<(K, V)> = Vec::new();
        std::mem::swap(&mut e, &mut self.entries);
        match place {
            Some(i) => {
                proof {
                    lemma_removed(e@, i as int);
                }
                let gone = e.remove(i);
            },
            None => {
                proof {
                    lemma_absent(e@, key@);
                    assert(entries_map(e@).remove(key@) =~= entries_map(e@));
                }
            },
        }
        self.entries = e;
    }

    /// Gives a key this value, in place of any that it had.
    pub fn insert(&mut self, key: K, value: V)
        ensures
            final(self)@ == old(self)@.insert(key@, value),
    {
        proof {
            use_type_invariant(&*self);
        }
        let place = self.place(&key);
        let ghost before = self@;
        let mut e: Vec<(K, V)> = Vec::new();
        std::mem::swap(&mut e, &mut self.entries);
        match place {
            Some(i) => {
                proof {
                    lemma_removed(e@, i as int);
                }
                let gone = e.remove(i);
            },
            None => {},
        }
        proof {
            lemma_pushed(e@, (key, value));
            assert(entries_map(e@).insert(key@, value) =~= before.insert(key@, value));
        }
        e.push((key, value));
        self.entries = e;
    }

    /// Takes out everything.
    pub fn clear(&mut self)
        ensures
            final(self)@ == Map::<<K as View>::V, V>::empty(),
    {
        let e: Vec<(K, V)> = Vec::new();
        proof {
            assert forall|s: <K as View>::V| !entries_map(e@).contains_key(s) by {
                lemma_absent(e@, s);
            }
            assert(entries_map(e@) =~= Map::<<K as View>::V, V>::empty());
        }
        self.entries = e;
    }
}

/// A scope is its tenant and its environment: two scopes are one where both are.
pub proof fn law_a_scope_is_its_tenant_and_its_environment(a: Scope, b: Scope)
    ensures
        a@.tenant == a.tenant@,
        a@.environment == a.environment@,
        a@ == b@ <==> a.tenant@ == b.tenant@ && a.environment@ == b.environment@,
{
}

} // verus!
