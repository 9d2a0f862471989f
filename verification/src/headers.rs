//! The headers of a request: a map from names to values.

use vstd::prelude::*;

use crate::reply;
use crate::text;

verus! {

/// The names of the entries, in order.
pub open spec fn names(e: Seq<(String, String)>) -> Seq<Seq<char>> {
    e.map_values(|p: (String, String)| p.0@)
}

/// The entry at `i` has this name.
pub open spec fn named(e: Seq<(String, String)>, i: int, name: Seq<char>) -> bool {
    0 <= i < e.len() && e[i].0@ == name
}

/// The map that a list of entries with distinct names stands for.
pub open spec fn as_map(e: Seq<(String, String)>) -> Map<Seq<char>, Seq<char>> {
    Map::new(
        |name: Seq<char>| exists|i: int| #[trigger] named(e, i, name),
        |name: Seq<char>| e[choose|i: int| #[trigger] named(e, i, name)].1@,
    )
}

proof fn lemma_named(e: Seq<(String, String)>, i: int)
    requires
        text::ascending(names(e)),
        0 <= i < e.len(),
    ensures
        as_map(e).contains_key(e[i].0@),
        as_map(e)[e[i].0@] == e[i].1@,
{
    let name = e[i].0@;
    assert(named(e, i, name));
    let k = choose|k: int| #[trigger] named(e, k, name);
    assert(names(e)[k] == names(e)[i]);
    if k < i {
        text::lemma_less_total(names(e)[k], names(e)[i]);
    } else if i < k {
        text::lemma_less_total(names(e)[i], names(e)[k]);
    }
}

/// A map from header names to values. The names are kept in ascending order, so that what is
/// reported of them is stable.
#[derive(Debug, PartialEq, Eq)]
pub struct Headers {
    entries: Vec<(String, String)>,
}

impl View for Headers {
    type V = Map<Seq<char>, Seq<char>>;

    closed spec fn view(&self) -> Map<Seq<char>, Seq<char>> {
        as_map(self.entries@)
    }
}

impl Clone for Headers {
    fn clone(&self) -> (r: Headers)
        ensures
            r@ == self@,
    {
        proof {
            use_type_invariant(self);
        }
        Headers { entries: reply::clone_pairs(&self.entries) }
    }
}

impl Headers {
    #[verifier::type_invariant]
    spec fn ordered(self) -> bool {
        text::ascending(names(self.entries@))
    }

    /// No headers.
    pub fn new() -> (r: Headers)
        ensures
            r@ == Map::<Seq<char>, Seq<char>>::empty(),
    {
        let r = Headers { entries: Vec::new() };
        assert(r@ =~= Map::<Seq<char>, Seq<char>>::empty()) by {
            assert forall|name: Seq<char>| !r@.contains_key(name) by {
                if r@.contains_key(name) {
                    let i = choose|i: int| #[trigger] named(r.entries@, i, name);
                    assert(named(r.entries@, i, name));
                }
            }
        }
        r
    }

    /// The place of `name`, or the place at which it would stand.
    fn place(&self, name: &str) -> (r: usize)
        ensures
            r <= self.entries@.len(),
            forall|k: int| 0 <= k < r ==> text::less(#[trigger] names(self.entries@)[k], name@),
            r < self.entries@.len() ==> !text::less(names(self.entries@)[r as int], name@),
    {
        let mut i: usize = 0;
        while i < self.entries.len() && text::comes_before(self.entries[i].0.as_str(), name)
            invariant
                i <= self.entries@.len(),
                forall|k: int| 0 <= k < i ==> text::less(#[trigger] names(self.entries@)[k], name@),
            decreases self.entries@.len() - i,
        {
            i = i + 1;
        }
        i
    }

    /// The value of `name`, if it has one.
    pub fn get(&self, name: &str) -> (r: Option<&String>)
        ensures
            match r {
                Some(value) => self@.contains_key(name@) && value@ == self@[name@],
                None => !self@.contains_key(name@),
            },
    {
        proof {
            use_type_invariant(self);
        }
        let i: usize = self.place(name);
        if i < self.entries.len() && text::same(self.entries[i].0.as_str(), name) {
            proof {
                lemma_named(self.entries@, i as int);
            }
            Some(&self.entries[i].1)
        } else {
            proof {
                let e = self.entries@;
                if self@.contains_key(name@) {
                    let k = choose|k: int| #[trigger] named(e, k, name@);
                    assert(named(e, k, name@));
                    assert(names(e)[k] == name@);
                    text::lemma_less_total(name@, name@);
                    if k > i {
                        assert(text::less(names(e)[i as int], names(e)[k]));
                    }
                }
            }
            None
        }
    }

    /// Whether `name` has a value.
    pub fn contains_key(&self, name: &str) -> (r: bool)
        ensures
            r == self@.contains_key(name@),
    {
        self.get(name).is_some()
    }

    /// Gives `name` this value, in place of any that it had.
    pub fn insert(&mut self, name: String, value: String)
        ensures
            final(self)@ == old(self)@.insert(name@, value@),
    {
        proof {
            use_type_invariant(&*self);
        }
        let i: usize = self.place(name.as_str());
        let mut e: Vec<(String, String)> = Vec::new();
        std::mem::swap(&mut e, &mut self.entries);
        let ghost before = e@;
        proof {
            text::lemma_less_total(name@, name@);
        }
        if i < e.len() && text::same(e[i].0.as_str(), name.as_str()) {
            e[i].1 = value;
            proof {
                assert(names(e@) =~= names(before));
                lemma_replaced(before, e@, i as int, name@, value@);
            }
        } else {
            e.insert(i, (name, value));
            proof {
                lemma_inserted(before, e@, i as int, name@, value@);
            }
        }
        self.entries = e;
    }

    /// Takes `name` out, if it is there.
    pub fn remove(&mut self, name: &str)
        ensures
            final(self)@ == old(self)@.remove(name@),
    {
        proof {
            use_type_invariant(&*self);
        }
        let i: usize = self.place(name);
        let mut e: Vec<(String, String)> = Vec::new();
        std::mem::swap(&mut e, &mut self.entries);
        let ghost before = e@;
        if i < e.len() && text::same(e[i].0.as_str(), name) {
            let gone = e.remove(i);
            proof {
                lemma_removed(before, e@, i as int);
            }
        } else {
            proof {
                assert(as_map(before).remove(name@) =~= as_map(before)) by {
                    if as_map(before).contains_key(name@) {
                        let k = choose|k: int| #[trigger] named(before, k, name@);
                        assert(named(before, k, name@));
                        assert(names(before)[k] == name@);
                        text::lemma_less_total(name@, name@);
                        if k > i {
                            assert(text::less(names(before)[i as int], names(before)[k]));
                        }
                    }
                }
            }
        }
        self.entries = e;
    }

    /// The names, in ascending order.
    pub fn keys(&self) -> (r: Vec<String>)
        ensures
            text::ascending(text::texts(r@)),
            forall|name: Seq<char>|
                text::texts(r@).contains(name) <==> #[trigger] self@.contains_key(name),
    {
        proof {
            use_type_invariant(self);
        }
        let mut r: Vec<String> = Vec::new();
        let mut i: usize = 0;
        while i < self.entries.len()
            invariant
                i <= self.entries@.len(),
                text::texts(r@) == names(self.entries@).take(i as int),
            decreases self.entries@.len() - i,
        {
            let ghost done = r@;
            r.push(self.entries[i].0.clone());
            assert(text::texts(r@) =~= text::texts(done).push(self.entries@[i as int].0@));
            assert(names(self.entries@).take(i + 1) =~= names(self.entries@).take(i as int).push(
                self.entries@[i as int].0@,
            ));
            i = i + 1;
        }
        proof {
            let e = self.entries@;
            assert(names(e).take(e.len() as int) =~= names(e));
            assert forall|name: Seq<char>|
                text::texts(r@).contains(name) <==> #[trigger] self@.contains_key(name) by {
                if names(e).contains(name) {
                    let k = choose|k: int| 0 <= k < names(e).len() && names(e)[k] == name;
                    assert(named(e, k, name));
                }
                if self@.contains_key(name) {
                    let k = choose|k: int| #[trigger] named(e, k, name);
                    assert(named(e, k, name));
                    assert(names(e)[k] == name);
                }
            }
        }
        r
    }
}

proof fn lemma_replaced(
    before: Seq<(String, String)>,
    after: Seq<(String, String)>,
    i: int,
    name: Seq<char>,
    value: Seq<char>,
)
    requires
        text::ascending(names(before)),
        0 <= i < before.len(),
        after.len() == before.len(),
        before[i].0@ == name,
        after[i].0@ == name,
        after[i].1@ == value,
        forall|k: int| 0 <= k < before.len() && k != i ==> after[k] == before[k],
    ensures
        text::ascending(names(after)),
        as_map(after) == as_map(before).insert(name, value),
{
    assert(names(after) =~= names(before));
    assert forall|n: Seq<char>| #[trigger] as_map(after).contains_key(n) <==> as_map(before).insert(
        name,
        value,
    ).contains_key(n) by {
        if as_map(after).contains_key(n) {
            let k = choose|k: int| #[trigger] named(after, k, n);
            assert(named(before, k, n));
        }
        if as_map(before).contains_key(n) {
            let k = choose|k: int| #[trigger] named(before, k, n);
            assert(named(after, k, n));
        }
        if n == name {
            assert(named(after, i, n));
        }
    }
    assert forall|n: Seq<char>| as_map(after).contains_key(n) implies #[trigger] as_map(after)[n]
        == as_map(before).insert(name, value)[n] by {
        let k = choose|k: int| #[trigger] named(after, k, n);
        assert(named(after, k, n));
        lemma_named(after, k);
        lemma_named(before, k);
        if k == i {
            assert(n == name);
        } else if n == name {
            assert(names(after)[k] == names(after)[i]);
            if k < i {
                text::lemma_less_total(names(after)[k], names(after)[i]);
            } else {
                text::lemma_less_total(names(after)[i], names(after)[k]);
            }
        }
    }
    assert(as_map(after) =~= as_map(before).insert(name, value));
}

proof fn lemma_inserted(
    before: Seq<(String, String)>,
    after: Seq<(String, String)>,
    i: int,
    name: Seq<char>,
    value: Seq<char>,
)
    requires
        text::ascending(names(before)),
        0 <= i <= before.len(),
        forall|k: int| 0 <= k < i ==> text::less(#[trigger] names(before)[k], name),
        i < before.len() ==> !text::less(names(before)[i], name) && names(before)[i] != name,
        after.len() == before.len() + 1,
        after[i].0@ == name,
        after[i].1@ == value,
        after =~= before.insert(i, after[i]),
    ensures
        text::ascending(names(after)),
        as_map(after) == as_map(before).insert(name, value),
{
    if i < before.len() {
        text::lemma_less_total(names(before)[i], name);
    }
    assert forall|k: int| i <= k < before.len() implies text::less(name, #[trigger] names(before)[k]) by {
        if k > i {
            text::lemma_less_transitive(name, names(before)[i], names(before)[k]);
        }
    }
    assert(names(after) =~= names(before).insert(i, name));
    text::lemma_less_total(name, name);
    assert forall|n: Seq<char>| #[trigger] as_map(after).contains_key(n) <==> as_map(before).insert(
        name,
        value,
    ).contains_key(n) by {
        if as_map(after).contains_key(n) {
            let k = choose|k: int| #[trigger] named(after, k, n);
            assert(named(after, k, n));
            if k < i {
                assert(named(before, k, n));
            } else if k > i {
                assert(named(before, k - 1, n));
            }
        }
        if as_map(before).contains_key(n) {
            let k = choose|k: int| #[trigger] named(before, k, n);
            assert(named(before, k, n));
            if k < i {
                assert(named(after, k, n));
            } else {
                assert(named(after, k + 1, n));
            }
        }
        if n == name {
            assert(named(after, i, n));
        }
    }
    assert forall|n: Seq<char>| as_map(after).contains_key(n) implies #[trigger] as_map(after)[n]
        == as_map(before).insert(name, value)[n] by {
        let k = choose|k: int| #[trigger] named(after, k, n);
        assert(named(after, k, n));
        lemma_named(after, k);
        if k < i {
            assert(after[k] == before[k]);
            lemma_named(before, k);
            assert(names(before)[k] != name);
        } else if k > i {
            assert(after[k] == before[k - 1]);
            lemma_named(before, k - 1);
            assert(text::less(name, names(before)[k - 1]));
        }
    }
    assert(as_map(after) =~= as_map(before).insert(name, value));
}

proof fn lemma_removed(before: Seq<(String, String)>, after: Seq<(String, String)>, i: int)
    requires
        text::ascending(names(before)),
        0 <= i < before.len(),
        after =~= before.remove(i),
    ensures
        text::ascending(names(after)),
        as_map(after) == as_map(before).remove(before[i].0@),
{
    let name = before[i].0@;
    assert(names(after) =~= names(before).remove(i));
    assert forall|k: int, l: int| 0 <= k < l < names(after).len() implies #[trigger] text::less(
        names(after)[k],
        names(after)[l],
    ) by {
        let m = if k < i {
            k
        } else {
            k + 1
        };
        let n = if l < i {
            l
        } else {
            l + 1
        };
        assert(text::less(names(before)[m], names(before)[n]));
    }
    assert forall|n: Seq<char>| #[trigger] as_map(after).contains_key(n) <==> as_map(before).remove(
        name,
    ).contains_key(n) by {
        if as_map(after).contains_key(n) {
            let k = choose|k: int| #[trigger] named(after, k, n);
            assert(named(after, k, n));
            let m = if k < i {
                k
            } else {
                k + 1
            };
            assert(named(before, m, n));
            if n == name {
                text::lemma_less_total(name, name);
                if m < i {
                    assert(text::less(names(before)[m], names(before)[i]));
                } else {
                    assert(text::less(names(before)[i], names(before)[m]));
                }
            }
        }
        if as_map(before).contains_key(n) && n != name {
            let k = choose|k: int| #[trigger] named(before, k, n);
            assert(named(before, k, n));
            if k < i {
                assert(named(after, k, n));
            } else {
                assert(named(after, k - 1, n));
            }
        }
    }
    assert forall|n: Seq<char>| as_map(after).contains_key(n) implies #[trigger] as_map(after)[n]
        == as_map(before).remove(name)[n] by {
        let k = choose|k: int| #[trigger] named(after, k, n);
        assert(named(after, k, n));
        lemma_named(after, k);
        let m = if k < i {
            k
        } else {
            k + 1
        };
        assert(after[k] == before[m]);
        lemma_named(before, m);
    }
    assert(as_map(after) =~= as_map(before).remove(name));
}

} // verus!
