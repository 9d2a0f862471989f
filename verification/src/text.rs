//! Text as a sequence of characters.
//!
//! Every contract of the crate speaks of text as `Seq<char>`. The functions here are the
//! building blocks the rest of the crate is written with: each one states what it computes on
//! that sequence.

use vstd::prelude::*;
use vstd::string::*;
use vstd::utf8::*;

verus! {

/// `String::push`: appends the given character to the end of the string.
pub assume_specification[ String::push ](s: &mut String, ch: char)
    ensures
        final(s)@ == old(s)@.push(ch),
;

// ---------------------------------------------------------------------------
// Classes of characters
// ---------------------------------------------------------------------------

/// A control character: the Unicode general category `Cc`.
pub open spec fn control(c: char) -> bool {
    c as u32 <= 0x1F || 0x7F <= c as u32 <= 0x9F
}

/// Whether `c` is a control character.
pub fn is_control(c: char) -> (r: bool)
    ensures
        r == control(c),
{
    let n: u32 = c as u32;
    n <= 0x1F || (0x7F <= n && n <= 0x9F)
}

/// A white space character: the Unicode property `White_Space`.
pub open spec fn white_space(c: char) -> bool {
    let n = c as u32;
    ||| 0x09 <= n <= 0x0D
    ||| n == 0x20
    ||| n == 0x85
    ||| n == 0xA0
    ||| n == 0x1680
    ||| 0x2000 <= n <= 0x200A
    ||| n == 0x2028
    ||| n == 0x2029
    ||| n == 0x202F
    ||| n == 0x205F
    ||| n == 0x3000
}

/// Whether `c` is white space.
pub fn is_white_space(c: char) -> (r: bool)
    ensures
        r == white_space(c),
{
    let n: u32 = c as u32;
    (0x09 <= n && n <= 0x0D) || n == 0x20 || n == 0x85 || n == 0xA0 || n == 0x1680 || (0x2000 <= n
        && n <= 0x200A) || n == 0x2028 || n == 0x2029 || n == 0x202F || n == 0x205F || n == 0x3000
}

/// The ASCII lower case of a character; any other character is itself.
pub open spec fn lower_char(c: char) -> char {
    if 'A' <= c <= 'Z' {
        ((c as u32 + 32) as u32) as char
    } else {
        c
    }
}

/// The ASCII lower case of `c`.
pub fn to_lower_char(c: char) -> (r: char)
    ensures
        r == lower_char(c),
{
    if 'A' <= c && c <= 'Z' {
        let n: u8 = c as u8;
        (n + 32) as char
    } else {
        c
    }
}

/// A decimal digit.
pub open spec fn digit(c: char) -> bool {
    '0' <= c <= '9'
}

/// An ASCII letter or a decimal digit.
pub open spec fn alphanumeric(c: char) -> bool {
    digit(c) || 'a' <= c <= 'z' || 'A' <= c <= 'Z'
}

// ---------------------------------------------------------------------------
// Whole texts
// ---------------------------------------------------------------------------

/// Some character of `s` is a control character.
pub open spec fn has_control(s: Seq<char>) -> bool {
    exists|i: int| 0 <= i < s.len() && control(#[trigger] s[i])
}

/// The ASCII lower case of a text.
pub open spec fn lower(s: Seq<char>) -> Seq<char> {
    s.map_values(|c: char| lower_char(c))
}

/// The texts of a sequence of strings.
pub open spec fn texts(v: Seq<String>) -> Seq<Seq<char>> {
    v.map_values(|s: String| s@)
}

/// The text of an optional string.
pub open spec fn opt_text(o: Option<String>) -> Option<Seq<char>> {
    match o {
        Some(s) => Some(s@),
        None => None,
    }
}

/// The text of an optional borrowed string.
pub open spec fn opt_str(o: Option<&str>) -> Option<Seq<char>> {
    match o {
        Some(s) => Some(s@),
        None => None,
    }
}

/// The characters of `s`.
pub fn chars_of(s: &str) -> (v: Vec<char>)
    ensures
        v@ == s@,
{
    let mut v: Vec<char> = Vec::new();
    for c in it: s.chars()
        invariant
            v@ == s@.take(it.index()),
            it.seq() == s@,
    {
        assert(s@.take(it.index() + 1) =~= s@.take(it.index()).push(s@[it.index()]));
        v.push(c);
    }
    assert(s@.take(s@.len() as int) =~= s@);
    v
}

/// The string of the characters in `v` from `from` up to `to`.
pub fn string_of_range(v: &Vec<char>, from: usize, to: usize) -> (s: String)
    requires
        from <= to <= v@.len(),
    ensures
        s@ == v@.subrange(from as int, to as int),
{
    let mut s: String = String::new();
    let mut i: usize = from;
    while i < to
        invariant
            from <= i <= to <= v@.len(),
            s@ == v@.subrange(from as int, i as int),
        decreases to - i,
    {
        assert(v@.subrange(from as int, i + 1) =~= v@.subrange(from as int, i as int).push(
            v@[i as int],
        ));
        s.push(v[i]);
        i = i + 1;
    }
    s
}

/// Whether two texts are the same.
pub fn same(a: &str, b: &str) -> (r: bool)
    ensures
        r == (a@ == b@),
{
    let x: Vec<char> = chars_of(a);
    let y: Vec<char> = chars_of(b);
    same_chars(&x, &y)
}

/// Whether two sequences of characters are the same.
pub fn same_chars(x: &Vec<char>, y: &Vec<char>) -> (r: bool)
    ensures
        r == (x@ == y@),
{
    if x.len() != y.len() {
        return false;
    }
    let mut i: usize = 0;
    while i < x.len()
        invariant
            x@.len() == y@.len(),
            i <= x@.len(),
            forall|j: int| 0 <= j < i ==> x@[j] == y@[j],
        decreases x@.len() - i,
    {
        if x[i] != y[i] {
            return false;
        }
        i = i + 1;
    }
    assert(x@ =~= y@);
    true
}

/// Whether `s` holds a control character.
pub fn any_control(s: &str) -> (r: bool)
    ensures
        r == has_control(s@),
{
    let v: Vec<char> = chars_of(s);
    let mut i: usize = 0;
    while i < v.len()
        invariant
            v@ == s@,
            i <= v@.len(),
            forall|j: int| 0 <= j < i ==> !control(#[trigger] v@[j]),
        decreases v@.len() - i,
    {
        if is_control(v[i]) {
            assert(control(s@[i as int]));
            return true;
        }
        i = i + 1;
    }
    false
}

/// Whether the character `c` occurs in `s`.
pub fn contains_char(s: &str, c: char) -> (r: bool)
    ensures
        r == s@.contains(c),
{
    let v: Vec<char> = chars_of(s);
    let mut i: usize = 0;
    while i < v.len()
        invariant
            v@ == s@,
            i <= v@.len(),
            forall|j: int| 0 <= j < i ==> v@[j] != c,
        decreases v@.len() - i,
    {
        if v[i] == c {
            assert(s@[i as int] == c);
            return true;
        }
        i = i + 1;
    }
    false
}

/// The ASCII lower case of `s`.
pub fn to_lower(s: &str) -> (r: String)
    ensures
        r@ == lower(s@),
{
    let v: Vec<char> = chars_of(s);
    let mut r: String = String::new();
    let mut i: usize = 0;
    while i < v.len()
        invariant
            v@ == s@,
            i <= v@.len(),
            r@ == lower(s@).take(i as int),
        decreases v@.len() - i,
    {
        assert(lower(s@).take(i + 1) =~= lower(s@).take(i as int).push(lower_char(s@[i as int])));
        r.push(to_lower_char(v[i]));
        i = i + 1;
    }
    assert(lower(s@).take(s@.len() as int) =~= lower(s@));
    r
}

/// A copy of a list of strings.
pub fn clone_texts(v: &Vec<String>) -> (r: Vec<String>)
    ensures
        r@ == v@,
{
    let r = v.clone();
    assert(r@ =~= v@);
    r
}

/// A copy of an optional string.
pub fn clone_opt(o: &Option<String>) -> (r: Option<String>)
    ensures
        r == *o,
{
    match o {
        Some(s) => Some(s.clone()),
        None => None,
    }
}

/// The length of a text in bytes of UTF-8.
pub open spec fn byte_len(s: Seq<char>) -> nat {
    encode_utf8(s).len()
}

/// The length of `s` in bytes.
pub fn bytes_in(s: &str) -> (n: usize)
    ensures
        n == byte_len(s@),
{
    s.as_bytes().len()
}

// ---------------------------------------------------------------------------
// Trimming
// ---------------------------------------------------------------------------

/// `s` without its leading white space.
pub open spec fn trim_start(s: Seq<char>) -> Seq<char>
    decreases s.len(),
{
    if s.len() > 0 && white_space(s[0]) {
        trim_start(s.skip(1))
    } else {
        s
    }
}

/// `s` without its trailing white space.
pub open spec fn trim_end(s: Seq<char>) -> Seq<char>
    decreases s.len(),
{
    if s.len() > 0 && white_space(s.last()) {
        trim_end(s.drop_last())
    } else {
        s
    }
}

/// `s` without the white space around it.
pub open spec fn trim(s: Seq<char>) -> Seq<char> {
    trim_end(trim_start(s))
}

/// `s` without the white space around it.
pub fn trimmed(s: &str) -> (r: String)
    ensures
        r@ == trim(s@),
{
    let v: Vec<char> = chars_of(s);
    let n: usize = v.len();
    let mut i: usize = 0;
    assert(v@.skip(0) =~= v@);
    while i < n && is_white_space(v[i])
        invariant
            n == v@.len(),
            i <= n,
            trim_start(v@) == trim_start(v@.skip(i as int)),
        decreases n - i,
    {
        assert(v@.skip(i as int).skip(1) =~= v@.skip(i + 1));
        i = i + 1;
    }
    assert(trim_start(v@) == v@.skip(i as int));
    let mut j: usize = n;
    assert(v@.subrange(i as int, n as int) =~= v@.skip(i as int));
    while i < j && is_white_space(v[j - 1])
        invariant
            i <= j <= n,
            n == v@.len(),
            trim_end(v@.skip(i as int)) == trim_end(v@.subrange(i as int, j as int)),
        decreases j,
    {
        assert(v@.subrange(i as int, j as int).drop_last() =~= v@.subrange(i as int, j - 1));
        j = j - 1;
    }
    string_of_range(&v, i, j)
}

// ---------------------------------------------------------------------------
// Joining
// ---------------------------------------------------------------------------

/// The texts in `parts`, with `sep` between each two neighbours.
pub open spec fn join(parts: Seq<Seq<char>>, sep: Seq<char>) -> Seq<char>
    decreases parts.len(),
{
    if parts.len() == 0 {
        Seq::empty()
    } else if parts.len() == 1 {
        parts[0]
    } else {
        join(parts.drop_last(), sep) + sep + parts.last()
    }
}

/// The strings in `parts`, with `sep` between each two neighbours.
pub fn joined(parts: &Vec<String>, sep: &str) -> (r: String)
    ensures
        r@ == join(texts(parts@), sep@),
{
    let mut r: String = String::new();
    let mut i: usize = 0;
    while i < parts.len()
        invariant
            i <= parts@.len(),
            r@ == join(texts(parts@).take(i as int), sep@),
        decreases parts@.len() - i,
    {
        let ghost t = texts(parts@);
        assert(t.take(i + 1).drop_last() =~= t.take(i as int));
        assert(t.take(i + 1).last() == parts@[i as int]@);
        if i > 0 {
            r.append(sep);
        }
        r.append(parts[i].as_str());
        assert(i == 0 ==> r@ =~= t.take(1)[0]);
        i = i + 1;
    }
    assert(texts(parts@).take(parts@.len() as int) =~= texts(parts@));
    r
}

// ---------------------------------------------------------------------------
// Searching
// ---------------------------------------------------------------------------

/// `part` occurs in `s` at position `i`.
pub open spec fn occurs_at(s: Seq<char>, part: Seq<char>, i: int) -> bool {
    0 <= i && i + part.len() <= s.len() && s.subrange(i, i + part.len()) == part
}

/// `part` occurs somewhere in `s`.
pub open spec fn occurs(s: Seq<char>, part: Seq<char>) -> bool {
    exists|i: int| #[trigger] occurs_at(s, part, i)
}

/// Whether `part` occurs in `s` at position `at`.
pub fn matches_at(s: &Vec<char>, part: &Vec<char>, at: usize) -> (r: bool)
    requires
        at <= s@.len(),
    ensures
        r == occurs_at(s@, part@, at as int),
{
    let n: usize = s.len();
    if n - at < part.len() {
        return false;
    }
    let mut j: usize = 0;
    while j < part.len()
        invariant
            at + part@.len() <= s@.len(),
            n == s@.len(),
            j <= part@.len(),
            forall|k: int| 0 <= k < j ==> s@[at + k] == part@[k],
        decreases part@.len() - j,
    {
        if s[at + j] != part[j] {
            assert(s@.subrange(at as int, at + part@.len())[j as int] != part@[j as int]);
            return false;
        }
        j = j + 1;
    }
    assert(s@.subrange(at as int, at + part@.len()) =~= part@);
    true
}

/// Whether `part` occurs somewhere in `s`.
pub fn contains_text(s: &str, part: &str) -> (r: bool)
    ensures
        r == occurs(s@, part@),
{
    let v: Vec<char> = chars_of(s);
    let p: Vec<char> = chars_of(part);
    let mut i: usize = 0;
    while i < v.len()
        invariant
            v@ == s@,
            p@ == part@,
            i <= v@.len(),
            forall|k: int| 0 <= k < i ==> !(#[trigger] occurs_at(s@, part@, k)),
        decreases v@.len() - i,
    {
        if matches_at(&v, &p, i) {
            return true;
        }
        i = i + 1;
    }
    matches_at(&v, &p, i)
}

/// Whether `s` begins with `prefix`.
pub fn has_prefix(s: &str, prefix: &str) -> (r: bool)
    ensures
        r == prefix@.is_prefix_of(s@),
{
    let v: Vec<char> = chars_of(s);
    let p: Vec<char> = chars_of(prefix);
    matches_at(&v, &p, 0)
}

// ---------------------------------------------------------------------------
// Order
// ---------------------------------------------------------------------------

/// The order of texts, by code points: the first difference decides, and a proper prefix comes
/// first.
pub open spec fn less(a: Seq<char>, b: Seq<char>) -> bool
    decreases a.len(),
{
    if b.len() == 0 {
        false
    } else if a.len() == 0 {
        true
    } else if a[0] != b[0] {
        a[0] < b[0]
    } else {
        less(a.skip(1), b.skip(1))
    }
}

/// Of two different texts one comes first, and not both do.
pub proof fn lemma_less_total(a: Seq<char>, b: Seq<char>)
    ensures
        a == b ==> !less(a, b),
        a != b ==> less(a, b) != less(b, a),
    decreases a.len(),
{
    if a.len() > 0 && b.len() > 0 && a[0] == b[0] {
        lemma_less_total(a.skip(1), b.skip(1));
        assert(a =~= seq![a[0]] + a.skip(1));
        assert(b =~= seq![b[0]] + b.skip(1));
        assert(less(a, b) == less(a.skip(1), b.skip(1)));
        assert(less(b, a) == less(b.skip(1), a.skip(1)));
    } else if a.len() == 0 && b.len() == 0 {
        assert(a =~= b);
    }
}

/// The order is transitive.
pub proof fn lemma_less_transitive(a: Seq<char>, b: Seq<char>, c: Seq<char>)
    requires
        less(a, b),
        less(b, c),
    ensures
        less(a, c),
    decreases a.len(),
{
    if a.len() > 0 && b.len() > 0 && c.len() > 0 && a[0] == b[0] && b[0] == c[0] {
        lemma_less_transitive(a.skip(1), b.skip(1), c.skip(1));
    }
}

/// Whether `a` comes before `b`.
pub fn comes_before(a: &str, b: &str) -> (r: bool)
    ensures
        r == less(a@, b@),
{
    let x: Vec<char> = chars_of(a);
    let y: Vec<char> = chars_of(b);
    let mut i: usize = 0;
    assert(x@.skip(0) =~= x@);
    assert(y@.skip(0) =~= y@);
    while i < x.len() && i < y.len() && x[i] == y[i]
        invariant
            i <= x@.len(),
            i <= y@.len(),
            less(x@, y@) == less(x@.skip(i as int), y@.skip(i as int)),
        decreases x@.len() - i,
    {
        assert(x@.skip(i as int).skip(1) =~= x@.skip(i + 1));
        assert(y@.skip(i as int).skip(1) =~= y@.skip(i + 1));
        i = i + 1;
    }
    if i == y.len() {
        false
    } else if i == x.len() {
        true
    } else {
        x[i] < y[i]
    }
}

/// Every text comes before those after it.
pub open spec fn ascending(v: Seq<Seq<char>>) -> bool {
    forall|i: int, j: int| 0 <= i < j < v.len() ==> #[trigger] less(v[i], v[j])
}

/// Puts `s` at its place in a list that is in ascending order. A text that is already there is
/// not added again.
pub fn insert_ascending(v: &mut Vec<String>, s: String)
    requires
        ascending(texts(old(v)@)),
    ensures
        ascending(texts(final(v)@)),
        forall|t: Seq<char>|
            texts(final(v)@).contains(t) <==> (texts(old(v)@).contains(t) || t == s@),
{
    let ghost before = texts(v@);
    let mut i: usize = 0;
    while i < v.len() && comes_before(v[i].as_str(), s.as_str())
        invariant
            i <= v@.len(),
            v@ == old(v)@,
            forall|k: int| 0 <= k < i ==> #[trigger] less(texts(v@)[k], s@),
        decreases v@.len() - i,
    {
        i = i + 1;
    }
    if i < v.len() && same(v[i].as_str(), s.as_str()) {
        assert(before[i as int] == s@);
        return;
    }
    proof {
        if i < v@.len() {
            lemma_less_total(before[i as int], s@);
            assert forall|k: int| i <= k < before.len() implies less(s@, #[trigger] before[k]) by {
                if k > i {
                    lemma_less_transitive(s@, before[i as int], before[k]);
                }
            }
        }
    }
    v.insert(i, s);
    proof {
        let after = texts(v@);
        assert(after =~= before.insert(i as int, s@));
        assert forall|t: Seq<char>| after.contains(t) <==> (before.contains(t) || t == s@) by {
            if before.contains(t) {
                let k = choose|k: int| 0 <= k < before.len() && before[k] == t;
                if k < i {
                    assert(after[k] == t);
                } else {
                    assert(after[k + 1] == t);
                }
            }
            if t == s@ {
                assert(after[i as int] == t);
            }
            if after.contains(t) {
                let k = choose|k: int| 0 <= k < after.len() && after[k] == t;
                if k < i {
                    assert(before[k] == t);
                } else if k > i {
                    assert(before[k - 1] == t);
                }
            }
        }
    }
}

// ---------------------------------------------------------------------------
// Words
// ---------------------------------------------------------------------------

/// How many characters stand before the first white space.
pub open spec fn word_end(s: Seq<char>) -> nat
    decreases s.len(),
{
    if s.len() == 0 || white_space(s[0]) {
        0
    } else {
        1 + word_end(s.skip(1))
    }
}

/// The words of a text: what stands between its white space.
pub open spec fn words(s: Seq<char>) -> Seq<Seq<char>>
    decreases s.len(),
    when true
    via words_decreases
{
    if s.len() == 0 {
        Seq::empty()
    } else if white_space(s[0]) {
        words(s.skip(1))
    } else {
        seq![s.take(word_end(s) as int)] + words(s.skip(word_end(s) as int))
    }
}

#[via_fn]
proof fn words_decreases(s: Seq<char>) {
    if s.len() > 0 && !white_space(s[0]) {
        lemma_word_end(s);
    }
}

/// The text is one word.
pub open spec fn is_word(s: Seq<char>) -> bool {
    s.len() > 0 && forall|k: int| 0 <= k < s.len() ==> !white_space(#[trigger] s[k])
}

/// A word ends where the text does, or where white space follows it.
pub proof fn lemma_word_end_within(s: Seq<char>, rest: Seq<char>)
    requires
        rest.len() == 0 || white_space(rest[0]),
    ensures
        word_end(s + rest) == word_end(s),
        (forall|k: int| 0 <= k < s.len() ==> !white_space(#[trigger] s[k])) ==> word_end(s)
            == s.len(),
    decreases s.len(),
{
    if s.len() == 0 {
        assert(s + rest =~= rest);
    } else {
        assert((s + rest).skip(1) =~= s.skip(1) + rest);
        lemma_word_end_within(s.skip(1), rest);
        if forall|k: int| 0 <= k < s.len() ==> !white_space(#[trigger] s[k]) {
            assert forall|k: int| 0 <= k < s.skip(1).len() implies !white_space(
                #[trigger] s.skip(1)[k],
            ) by {
                assert(s.skip(1)[k] == s[k + 1]);
            }
        }
    }
}

/// A word has one word: itself.
pub proof fn lemma_words_of_word(w: Seq<char>)
    requires
        is_word(w),
    ensures
        words(w) == seq![w],
{
    lemma_word_end_within(w, Seq::empty());
    assert(w + Seq::empty() =~= w);
    assert(!white_space(w[0]));
    assert(w.take(w.len() as int) =~= w);
    assert(w.skip(w.len() as int) =~= Seq::empty());
    assert(words(Seq::empty()) =~= Seq::empty());
    assert(words(w) =~= seq![w]);
}

/// A word that stands behind a text and a space is its last word.
pub proof fn lemma_words_push(s: Seq<char>, w: Seq<char>)
    requires
        is_word(w),
    ensures
        words(s + seq![' '] + w) == words(s).push(w),
    decreases s.len(),
{
    let tail = seq![' '] + w;
    let all = s + seq![' '] + w;
    assert(all =~= s + tail);
    if s.len() == 0 {
        assert(all.skip(1) =~= w);
        lemma_words_of_word(w);
        assert(words(s).push(w) =~= seq![w]);
    } else if white_space(s[0]) {
        assert(all.skip(1) =~= s.skip(1) + seq![' '] + w);
        lemma_words_push(s.skip(1), w);
    } else {
        lemma_word_end(s);
        lemma_word_end_within(s, tail);
        let end = word_end(s) as int;
        assert(all.take(end) =~= s.take(end));
        assert(all.skip(end) =~= s.skip(end) + seq![' '] + w);
        lemma_words_push(s.skip(end), w);
        assert(words(all) =~= words(s).push(w));
    }
}

/// A word lies within the text, and is not empty where the text does not begin with white space.
pub proof fn lemma_word_end(s: Seq<char>)
    ensures
        word_end(s) <= s.len(),
        s.len() > 0 && !white_space(s[0]) ==> word_end(s) > 0,
    decreases s.len(),
{
    if s.len() > 0 {
        lemma_word_end(s.skip(1));
    }
}

/// The words of `s`.
pub fn words_of(s: &str) -> (r: Vec<String>)
    ensures
        texts(r@) == words(s@),
{
    let v: Vec<char> = chars_of(s);
    let n: usize = v.len();
    let mut r: Vec<String> = Vec::new();
    let mut i: usize = 0;
    assert(v@.skip(0) =~= v@);
    assert(texts(r@) + words(v@.skip(0)) =~= words(v@));
    while i < n
        invariant
            n == v@.len(),
            i <= n,
            texts(r@) + words(v@.skip(i as int)) == words(v@),
        decreases n - i,
    {
        let ghost rest = v@.skip(i as int);
        if is_white_space(v[i]) {
            assert(rest.skip(1) =~= v@.skip(i + 1));
            i = i + 1;
        } else {
            let mut j: usize = i;
            while j < n && !is_white_space(v[j])
                invariant
                    n == v@.len(),
                    i <= j <= n,
                    rest == v@.skip(i as int),
                    word_end(rest) == (j - i) + word_end(v@.skip(j as int)),
                decreases n - j,
            {
                assert(v@.skip(j as int).skip(1) =~= v@.skip(j + 1));
                j = j + 1;
            }
            proof {
                lemma_word_end(rest);
                assert(word_end(rest) == j - i);
                assert(j > i);
                assert(rest.take(j - i) =~= v@.subrange(i as int, j as int));
                assert(rest.skip(j - i) =~= v@.skip(j as int));
            }
            let ghost done = r@;
            r.push(string_of_range(&v, i, j));
            assert(texts(r@) =~= texts(done).push(v@.subrange(i as int, j as int)));
            assert(texts(r@) + words(v@.skip(j as int)) =~= texts(done) + (seq![
                v@.subrange(i as int, j as int),
            ] + words(v@.skip(j as int))));
            i = j;
        }
    }
    assert(words(v@.skip(n as int)) =~= Seq::empty());
    assert(texts(r@) + Seq::empty() =~= texts(r@));
    r
}

/// Whether a list of strings holds `s`.
pub fn list_holds(v: &Vec<String>, s: &str) -> (r: bool)
    ensures
        r == texts(v@).contains(s@),
{
    let mut i: usize = 0;
    while i < v.len()
        invariant
            i <= v@.len(),
            forall|k: int| 0 <= k < i ==> texts(v@)[k] != s@,
        decreases v@.len() - i,
    {
        if same(v[i].as_str(), s) {
            assert(texts(v@)[i as int] == s@);
            return true;
        }
        i = i + 1;
    }
    false
}

/// Appends a string to a list of strings.
pub fn push_text(v: &mut Vec<String>, s: &str)
    ensures
        texts(final(v)@) == texts(old(v)@).push(s@),
{
    let ghost before = v@;
    v.push(s.to_owned());
    assert(texts(v@) =~= texts(before).push(s@));
}

// ---------------------------------------------------------------------------
// Splitting
// ---------------------------------------------------------------------------

/// The place of the first `c` in `s`, or the length of `s` where there is none.
pub open spec fn find(s: Seq<char>, c: char) -> nat
    decreases s.len(),
{
    if s.len() == 0 || s[0] == c {
        0
    } else {
        1 + find(s.skip(1), c)
    }
}

/// The first `c` lies within the text, nothing before it is one, and it is one.
pub proof fn lemma_find(s: Seq<char>, c: char)
    ensures
        find(s, c) <= s.len(),
        forall|i: int| 0 <= i < find(s, c) ==> s[i] != c,
        find(s, c) < s.len() ==> s[find(s, c) as int] == c,
        s.contains(c) <==> find(s, c) < s.len(),
    decreases s.len(),
{
    if s.len() > 0 && s[0] != c {
        lemma_find(s.skip(1), c);
        assert forall|i: int| 0 <= i < find(s, c) implies s[i] != c by {
            if i > 0 {
                assert(s.skip(1)[i - 1] == s[i]);
            }
        }
        if s.contains(c) {
            let k = choose|k: int| 0 <= k < s.len() && s[k] == c;
            assert(s.skip(1)[k - 1] == c);
            assert(s.skip(1).contains(c));
        }
    }
}

/// The place of the first `c` in `v` from place `from` on.
pub fn find_from(v: &Vec<char>, c: char, from: usize) -> (r: usize)
    requires
        from <= v@.len(),
    ensures
        from <= r <= v@.len(),
        r == from + find(v@.skip(from as int), c),
{
    let mut i: usize = from;
    while i < v.len() && v[i] != c
        invariant
            from <= i <= v@.len(),
            find(v@.skip(from as int), c) == (i - from) + find(v@.skip(i as int), c),
        decreases v@.len() - i,
    {
        assert(v@.skip(i as int).skip(1) =~= v@.skip(i + 1));
        i = i + 1;
    }
    i
}

/// What stands between the `c`s of a text: one part more than there are of them.
pub open spec fn split(s: Seq<char>, c: char) -> Seq<Seq<char>>
    decreases s.len(),
    when true
    via split_decreases
{
    let n = find(s, c);
    if n >= s.len() {
        seq![s]
    } else {
        seq![s.take(n as int)] + split(s.skip(n as int + 1), c)
    }
}

#[via_fn]
proof fn split_decreases(s: Seq<char>, c: char) {
}

/// The parts of `s` between its `c`s.
pub fn split_on(s: &str, c: char) -> (r: Vec<String>)
    ensures
        texts(r@) == split(s@, c),
{
    let v: Vec<char> = chars_of(s);
    let n: usize = v.len();
    let mut r: Vec<String> = Vec::new();
    let mut i: usize = 0;
    let mut done: bool = false;
    assert(v@.skip(0) =~= v@);
    assert(texts(r@) + split(v@.skip(0), c) =~= split(v@, c));
    while !done
        invariant
            n == v@.len(),
            i <= n,
            !done ==> texts(r@) + split(v@.skip(i as int), c) == split(v@, c),
            done ==> texts(r@) == split(v@, c),
        decreases n - i + (if done {
            0int
        } else {
            1int
        }),
    {
        let ghost rest = v@.skip(i as int);
        let ghost before = texts(r@);
        let j: usize = find_from(&v, c, i);
        push_text(&mut r, string_of_range(&v, i, j).as_str());
        assert(v@.subrange(i as int, j as int) =~= rest.take(j - i));
        proof {
            lemma_find(rest, c);
        }
        if j == n {
            assert(rest.take(j - i) =~= rest);
            assert(texts(r@) =~= before + split(rest, c));
            done = true;
        } else {
            assert(rest.skip(j - i + 1) =~= v@.skip(j + 1));
            assert(texts(r@) + split(v@.skip(j + 1), c) =~= before + split(rest, c));
            i = j + 1;
        }
    }
    r
}

/// What stands before the first `c`: all of the text where there is none.
pub open spec fn before(s: Seq<char>, c: char) -> Seq<char> {
    s.take(find(s, c) as int)
}

/// What stands behind the first `c`: nothing where there is none.
pub open spec fn behind(s: Seq<char>, c: char) -> Seq<char> {
    if find(s, c) < s.len() {
        s.skip(find(s, c) as int + 1)
    } else {
        Seq::empty()
    }
}

/// The two sides of the first `c` in `s`.
pub fn sides(s: &str, c: char) -> (r: (String, String))
    ensures
        r.0@ == before(s@, c),
        r.1@ == behind(s@, c),
{
    let v: Vec<char> = chars_of(s);
    let n: usize = v.len();
    assert(v@.skip(0) =~= v@);
    let j: usize = find_from(&v, c, 0);
    assert(v@.subrange(0, j as int) =~= v@.take(j as int));
    let left: String = string_of_range(&v, 0, j);
    if j < n {
        assert(v@.subrange(j + 1, n as int) =~= v@.skip(j + 1));
        (left, string_of_range(&v, j + 1, n))
    } else {
        (left, String::new())
    }
}

// ---------------------------------------------------------------------------
// Bytes
// ---------------------------------------------------------------------------

/// `String::from_utf8`: the text of a sequence of bytes, where they are valid UTF-8.
#[verifier::external_body]
pub(crate) fn from_utf8(bytes: Vec<u8>) -> (r: Option<String>)
    ensures
        match r {
            Some(s) => valid_utf8(bytes@) && encode_utf8(s@) == bytes@,
            None => !valid_utf8(bytes@),
        },
{
    String::from_utf8(bytes).ok()
}

/// The text of a sequence of bytes, where they are valid UTF-8.
pub open spec fn utf8_text(bytes: Seq<u8>) -> Option<Seq<char>> {
    if valid_utf8(bytes) {
        Some(decode_utf8(bytes))
    } else {
        None
    }
}

/// The text of a sequence of bytes, where they are valid UTF-8.
pub fn text_of_bytes(bytes: Vec<u8>) -> (r: Option<String>)
    ensures
        opt_text(r) == utf8_text(bytes@),
{
    let r = from_utf8(bytes);
    proof {
        if r is Some {
            encode_utf8_decode_utf8(r->0@);
        }
    }
    r
}

/// The bytes of a slice, as a vector.
pub fn bytes_of(s: &str) -> (r: Vec<u8>)
    ensures
        r@ == encode_utf8(s@),
{
    s.as_bytes_vec()
}

// ---------------------------------------------------------------------------
// Numbers
// ---------------------------------------------------------------------------

/// The decimal digit of a number below ten.
pub open spec fn digit_char(n: nat) -> char {
    (n + 0x30) as u8 as char
}

/// A number in decimal digits.
pub open spec fn decimal(n: nat) -> Seq<char>
    decreases n,
{
    if n < 10 {
        seq![digit_char(n)]
    } else {
        decimal(n / 10).push(digit_char(n % 10))
    }
}

/// `n` in decimal digits.
pub fn decimal_of(n: u64) -> (r: String)
    ensures
        r@ == decimal(n as nat),
    decreases n,
{
    let d: u8 = (n % 10) as u8;
    let c: char = (d + 0x30) as char;
    if n < 10 {
        let mut r: String = String::new();
        r.push(c);
        assert(r@ =~= decimal(n as nat));
        r
    } else {
        let mut r: String = decimal_of(n / 10);
        r.push(c);
        r
    }
}

/// `s` without the `c`s at its end.
pub open spec fn trim_end_char(s: Seq<char>, c: char) -> Seq<char>
    decreases s.len(),
{
    if s.len() > 0 && s.last() == c {
        trim_end_char(s.drop_last(), c)
    } else {
        s
    }
}

/// `s` without the `c`s at its end.
pub fn without_trailing(s: &str, c: char) -> (r: String)
    ensures
        r@ == trim_end_char(s@, c),
{
    let v: Vec<char> = chars_of(s);
    let mut j: usize = v.len();
    assert(v@.take(v@.len() as int) =~= v@);
    while j > 0 && v[j - 1] == c
        invariant
            j <= v@.len(),
            trim_end_char(v@, c) == trim_end_char(v@.take(j as int), c),
        decreases j,
    {
        assert(v@.take(j as int).drop_last() =~= v@.take(j - 1));
        j = j - 1;
    }
    assert(v@.subrange(0, j as int) =~= v@.take(j as int));
    string_of_range(&v, 0, j)
}

// ---------------------------------------------------------------------------
// Laws
// ---------------------------------------------------------------------------

proof fn lemma_trim_start(s: Seq<char>) -> (i: int)
    ensures
        0 <= i <= s.len(),
        trim_start(s) == s.skip(i),
        forall|k: int| 0 <= k < i ==> white_space(#[trigger] s[k]),
        i < s.len() ==> !white_space(s[i]),
    decreases s.len(),
{
    if s.len() > 0 && white_space(s[0]) {
        let j = lemma_trim_start(s.skip(1));
        assert(s.skip(1).skip(j) =~= s.skip(j + 1));
        assert forall|k: int| 0 <= k < j + 1 implies white_space(#[trigger] s[k]) by {
            if k > 0 {
                assert(s.skip(1)[k - 1] == s[k]);
            }
        }
        if j + 1 < s.len() {
            assert(s.skip(1)[j] == s[j + 1]);
        }
        j + 1
    } else {
        assert(s.skip(0) =~= s);
        0
    }
}

proof fn lemma_trim_end(s: Seq<char>) -> (j: int)
    ensures
        0 <= j <= s.len(),
        trim_end(s) == s.take(j),
        forall|k: int| j <= k < s.len() ==> white_space(#[trigger] s[k]),
        j > 0 ==> !white_space(s[j - 1]),
    decreases s.len(),
{
    if s.len() > 0 && white_space(s.last()) {
        let j = lemma_trim_end(s.drop_last());
        assert(s.drop_last().take(j) =~= s.take(j));
        assert forall|k: int| j <= k < s.len() implies white_space(#[trigger] s[k]) by {
            if k < s.len() - 1 {
                assert(s.drop_last()[k] == s[k]);
            }
        }
        j
    } else {
        assert(s.take(s.len() as int) =~= s);
        s.len() as int
    }
}

/// Trimming takes off white space and nothing else: a text is put together of white space, what is
/// left of it, and white space; and what is left neither begins nor ends with any.
pub proof fn law_trimming_takes_off_white_space(before: Seq<char>, kept: Seq<char>, after: Seq<char>)
    requires
        forall|k: int| 0 <= k < before.len() ==> white_space(#[trigger] before[k]),
        forall|k: int| 0 <= k < after.len() ==> white_space(#[trigger] after[k]),
        kept.len() > 0 ==> !white_space(kept[0]) && !white_space(kept.last()),
    ensures
        trim(before + kept + after) == kept,
{
    let s = before + kept + after;
    let i = lemma_trim_start(s);
    if kept.len() > 0 {
        if i < before.len() {
            assert(s[i] == before[i]);
        } else if i > before.len() {
            assert(s[before.len() as int] == kept[0]);
        }
        assert(trim_start(s) =~= kept + after);
        let t = kept + after;
        let j = lemma_trim_end(t);
        if j < kept.len() {
            assert(t[kept.len() - 1] == kept.last());
        } else if j > kept.len() {
            assert(t[j - 1] == after[j - 1 - kept.len()]);
        }
        assert(trim(s) =~= kept);
    } else {
        if i < s.len() {
            if i < before.len() {
                assert(s[i] == before[i]);
            } else {
                assert(s[i] == after[i - before.len()]);
            }
        }
        assert(trim_start(s) =~= Seq::empty());
        assert(trim(s) =~= kept);
    }
}

/// What is left of a text has no white space at its ends, and nothing is left exactly where all of
/// it is white space.
pub proof fn law_nothing_is_left_of_a_blank(s: Seq<char>)
    ensures
        trim(s).len() > 0 ==> !white_space(trim(s)[0]) && !white_space(trim(s).last()),
        (trim(s).len() == 0) <==> (forall|k: int| 0 <= k < s.len() ==> white_space(#[trigger] s[k])),
        exists|i: int, j: int|
            0 <= i <= j <= s.len() && trim(s) == #[trigger] s.subrange(i, j) && (forall|k: int|
                0 <= k < i || j <= k < s.len() ==> white_space(#[trigger] s[k])),
{
    let i = lemma_trim_start(s);
    let t = s.skip(i);
    let j = lemma_trim_end(t);
    assert(trim(s) == t.take(j));
    assert(t.take(j) =~= s.subrange(i, i + j));
    assert forall|k: int| 0 <= k < i || i + j <= k < s.len() implies white_space(
        #[trigger] s[k],
    ) by {
        if k >= i {
            assert(t[k - i] == s[k]);
        }
    }
    if trim(s).len() > 0 {
        assert(trim(s).last() == t[j - 1]);
        assert(trim(s)[0] == s[i]);
        assert(!white_space(s[i]));
    } else {
        assert(j == 0);
        assert(i + j == i);
    }
}

/// White space and control characters are the ones of the standard: among the ASCII characters the
/// space and the five characters from the tab on are white, and a visible one is neither white nor
/// a control character.
pub proof fn law_classes_of_characters(c: char)
    ensures
        (c as u32) < 0x80 ==> (white_space(c) <==> (c == ' ' || 9 <= c as u32 <= 13)),
        (c as u32) < 0x80 ==> (control(c) <==> ((c as u32) < 0x20 || c as u32 == 0x7F)),
        0x21 <= c as u32 <= 0x7E ==> !white_space(c) && !control(c),
        alphanumeric(c) ==> !white_space(c) && !control(c),
        (c as u32) >= 0x3001 ==> !white_space(c) && !control(c),
{
}

/// Lower case changes the letters from `A` to `Z` to those that are thirty-two places behind them,
/// and leaves everything else and every place as it is.
pub proof fn law_lower_case_changes_letters_only(s: Seq<char>, i: int)
    requires
        0 <= i < s.len(),
    ensures
        lower(s).len() == s.len(),
        'A' <= s[i] <= 'Z' ==> lower(s)[i] as u32 == s[i] as u32 + 32,
        !('A' <= s[i] <= 'Z') ==> lower(s)[i] == s[i],
        lower(lower(s)) == lower(s),
{
    assert(lower(lower(s)) =~= lower(s));
}

/// A text is what stands before the first separator, the separator, and what stands behind it; no
/// separator stands before it. A text without one stands before it as a whole.
pub proof fn law_a_text_has_two_sides(left: Seq<char>, right: Seq<char>, c: char)
    requires
        !left.contains(c),
    ensures
        before(left + seq![c] + right, c) == left,
        behind(left + seq![c] + right, c) == right,
        before(left, c) == left,
        behind(left, c).len() == 0,
{
    let s = left + seq![c] + right;
    lemma_find(s, c);
    lemma_find(left, c);
    let n = find(s, c) as int;
    assert(s[left.len() as int] == c);
    assert(s.contains(c));
    if n < left.len() {
        assert(left[n] == s[n]);
        assert(left.contains(c));
    }
    assert(n == left.len());
    assert(before(s, c) =~= left);
    assert(behind(s, c) =~= right);
    assert(before(left, c) =~= left);
}

/// Parts that hold no separator are got back from what they are joined to by it.
pub proof fn law_joined_parts_are_split_again(parts: Seq<Seq<char>>, c: char)
    requires
        parts.len() > 0,
        forall|k: int| 0 <= k < parts.len() ==> !(#[trigger] parts[k]).contains(c),
    ensures
        split(join(parts, seq![c]), c) == parts,
    decreases parts.len(),
{
    if parts.len() == 1 {
        lemma_find(parts[0], c);
        assert(split(parts[0], c) =~= parts);
    } else {
        let head = parts.drop_last();
        assert forall|k: int| 0 <= k < head.len() implies !(#[trigger] head[k]).contains(c) by {
            assert(head[k] == parts[k]);
        }
        law_joined_parts_are_split_again(head, c);
        crate::util::lemma_split_append(join(head, seq![c]), parts.last(), c);
        assert(!parts[parts.len() - 1].contains(c));
        lemma_find(parts.last(), c);
        assert(split(parts.last(), c) =~= seq![parts.last()]);
        assert(head + seq![parts.last()] =~= parts);
    }
}

/// The value of decimal digits.
pub open spec fn number_of(digits: Seq<char>) -> int
    decreases digits.len(),
{
    if digits.len() == 0 {
        0
    } else {
        10 * number_of(digits.drop_last()) + (digits.last() as u32 - '0' as u32)
    }
}

/// A number in decimal digits is read back, and begins with no zero but for zero itself.
pub proof fn law_decimal_digits_are_read_back(n: nat)
    ensures
        number_of(decimal(n)) == n,
        decimal(n).len() > 0,
        forall|k: int| 0 <= k < decimal(n).len() ==> digit(#[trigger] decimal(n)[k]),
        n > 0 ==> decimal(n)[0] != '0',
    decreases n,
{
    if n < 10 {
        assert(decimal(n).drop_last() =~= Seq::empty());
        assert(number_of(Seq::<char>::empty()) == 0);
    } else {
        law_decimal_digits_are_read_back(n / 10);
        assert(decimal(n).drop_last() =~= decimal(n / 10));
    }
}

/// Optional and listed strings are read one by one, as they are.
pub proof fn law_strings_are_read_as_they_are(s: String, list: Seq<String>, i: int)
    ensures
        opt_text(Some(s)) == Some(s@),
        opt_text(None) is None,
        texts(list).len() == list.len(),
        0 <= i < list.len() ==> texts(list)[i] == list[i]@,
        forall|t: Seq<char>| #[trigger]
            texts(list).contains(t) <==> (exists|k: int|
                0 <= k < list.len() && #[trigger] list[k]@ == t),
{
    assert forall|t: Seq<char>| #[trigger] texts(list).contains(t) <==> (exists|k: int|
        0 <= k < list.len() && #[trigger] list[k]@ == t) by {
        if texts(list).contains(t) {
            let k = choose|k: int| 0 <= k < texts(list).len() && texts(list)[k] == t;
            assert(list[k]@ == t);
        }
        if exists|k: int| 0 <= k < list.len() && #[trigger] list[k]@ == t {
            let k = choose|k: int| 0 <= k < list.len() && #[trigger] list[k]@ == t;
            assert(texts(list)[k] == t);
        }
    }
}

/// A text is read back from its bytes, and from bytes that are not valid there is none.
pub proof fn law_a_text_is_read_back_from_its_bytes(s: Seq<char>, bytes: Seq<u8>)
    ensures
        utf8_text(encode_utf8(s)) == Some(s),
        !valid_utf8(bytes) ==> utf8_text(bytes) is None,
        valid_utf8(bytes) ==> (utf8_text(bytes) matches Some(t) && encode_utf8(t) == bytes),
{
    encode_utf8_valid_utf8(s);
    encode_utf8_decode_utf8(s);
    if valid_utf8(bytes) {
        decode_utf8_encode_utf8(bytes);
    }
}

/// Letters and digits are those of ASCII, from the first to the last of each kind.
pub proof fn law_letters_and_digits_are_those_of_ascii(c: char)
    ensures
        digit(c) <==> 0x30 <= c as u32 <= 0x39,
        alphanumeric(c) <==> (0x30 <= c as u32 <= 0x39 || 0x41 <= c as u32 <= 0x5A || 0x61 <= c as u32
            <= 0x7A),
        control(c) <==> ((c as u32) < 0x20 || (0x7F <= c as u32 && (c as u32) < 0xA0)),
{
}

} // verus!
