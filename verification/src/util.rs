//! Query strings.

use vstd::prelude::*;
use vstd::string::*;
use vstd::utf8::*;

use crate::text;

verus! {

// ---------------------------------------------------------------------------
// Percent-encoding
// ---------------------------------------------------------------------------

/// The value of a hexadecimal digit.
pub open spec fn hex_value(b: u8) -> Option<u8> {
    if 0x30 <= b <= 0x39 {
        Some((b - 0x30) as u8)
    } else if 0x41 <= b <= 0x46 {
        Some((b - 0x41 + 10) as u8)
    } else if 0x61 <= b <= 0x66 {
        Some((b - 0x61 + 10) as u8)
    } else {
        None
    }
}

/// The value of a hexadecimal digit.
pub fn hex_value_of(b: u8) -> (r: Option<u8>)
    ensures
        r == hex_value(b),
{
    if 0x30 <= b && b <= 0x39 {
        Some(b - 0x30)
    } else if 0x41 <= b && b <= 0x46 {
        Some(b - 0x41 + 10)
    } else if 0x61 <= b && b <= 0x66 {
        Some(b - 0x61 + 10)
    } else {
        None
    }
}

/// A percent sign and two hexadecimal digits begin the bytes.
pub open spec fn escape_first(b: Seq<u8>) -> bool {
    b.len() >= 3 && b[0] == 0x25 && hex_value(b[1]) is Some && hex_value(b[2]) is Some
}

/// The bytes that percent-encoded bytes stand for. A plus sign is a space, and a percent sign
/// without two digits is itself.
pub open spec fn percent_decoded(b: Seq<u8>) -> Seq<u8>
    decreases b.len(),
{
    if b.len() == 0 {
        Seq::empty()
    } else if escape_first(b) {
        seq![(hex_value(b[1])->0 * 16 + hex_value(b[2])->0) as u8] + percent_decoded(b.skip(3))
    } else if b[0] == 0x2B {
        seq![0x20u8] + percent_decoded(b.skip(1))
    } else {
        seq![b[0]] + percent_decoded(b.skip(1))
    }
}

/// The bytes that percent-encoded bytes stand for.
pub fn percent_decode(b: &Vec<u8>) -> (r: Vec<u8>)
    ensures
        r@ == percent_decoded(b@),
{
    let n: usize = b.len();
    let mut r: Vec<u8> = Vec::new();
    let mut i: usize = 0;
    assert(b@.skip(0) =~= b@);
    assert(r@ + percent_decoded(b@.skip(0)) =~= percent_decoded(b@));
    while i < n
        invariant
            n == b@.len(),
            i <= n,
            r@ + percent_decoded(b@.skip(i as int)) == percent_decoded(b@),
        decreases n - i,
    {
        let ghost rest = b@.skip(i as int);
        let ghost done = r@;
        if b[i] == 0x25 && n - i >= 3 {
            match (hex_value_of(b[i + 1]), hex_value_of(b[i + 2])) {
                (Some(high), Some(low)) => {
                    assert(high < 16 && low < 16);
                    r.push(high * 16 + low);
                    assert(rest.skip(3) =~= b@.skip(i + 3));
                    assert(r@ + percent_decoded(b@.skip(i + 3)) =~= done + percent_decoded(rest));
                    i = i + 3;
                },
                _ => {
                    r.push(b[i]);
                    assert(!escape_first(rest));
                    assert(rest.skip(1) =~= b@.skip(i + 1));
                    assert(r@ + percent_decoded(b@.skip(i + 1)) =~= done + percent_decoded(rest));
                    i = i + 1;
                },
            }
        } else {
            if b[i] == 0x2B {
                r.push(0x20);
            } else {
                r.push(b[i]);
            }
            assert(!escape_first(rest));
            assert(rest.skip(1) =~= b@.skip(i + 1));
            assert(r@ + percent_decoded(b@.skip(i + 1)) =~= done + percent_decoded(rest));
            i = i + 1;
        }
    }
    assert(r@ + Seq::empty() =~= r@);
    r
}

/// A byte that stands for itself in a query: a letter, a digit, or one of `-._~`.
pub open spec fn unreserved_byte(b: u8) -> bool {
    ||| 0x30 <= b <= 0x39
    ||| 0x41 <= b <= 0x5A
    ||| 0x61 <= b <= 0x7A
    ||| b == 0x2D
    ||| b == 0x2E
    ||| b == 0x5F
    ||| b == 0x7E
}

/// The upper-case hexadecimal digit of a number below sixteen.
pub open spec fn upper_hex(n: u8) -> char {
    if n < 10 {
        (n + 0x30) as u8 as char
    } else {
        (n - 10 + 0x41) as u8 as char
    }
}

/// One byte, percent-encoded.
pub open spec fn percent_encoded_byte(b: u8) -> Seq<char> {
    if unreserved_byte(b) {
        seq![b as char]
    } else {
        seq!['%', upper_hex(b / 16), upper_hex(b % 16)]
    }
}

/// Bytes, percent-encoded.
pub open spec fn percent_encoded(b: Seq<u8>) -> Seq<char>
    decreases b.len(),
{
    if b.len() == 0 {
        Seq::empty()
    } else {
        percent_encoded(b.drop_last()) + percent_encoded_byte(b.last())
    }
}

/// The upper-case hexadecimal digit of a number below sixteen.
pub fn to_upper_hex(n: u8) -> (r: char)
    requires
        n < 16,
    ensures
        r == upper_hex(n),
{
    if n < 10 {
        (n + 0x30) as char
    } else {
        (n - 10 + 0x41) as char
    }
}

/// The lower-case hexadecimal digit of a number below sixteen.
pub open spec fn lower_hex(n: u8) -> char {
    if n < 10 {
        (n + 0x30) as u8 as char
    } else {
        (n - 10 + 0x61) as u8 as char
    }
}

/// Bytes in lower-case hexadecimal, two digits each.
pub open spec fn hex(b: Seq<u8>) -> Seq<char>
    decreases b.len(),
{
    if b.len() == 0 {
        Seq::empty()
    } else {
        hex(b.drop_last()) + seq![lower_hex(b.last() / 16), lower_hex(b.last() % 16)]
    }
}

/// The lower-case hexadecimal digit of a number below sixteen.
fn to_lower_hex(n: u8) -> (r: char)
    requires
        n < 16,
    ensures
        r == lower_hex(n),
{
    if n < 10 {
        (n + 0x30) as char
    } else {
        (n - 10 + 0x61) as char
    }
}

/// Bytes in lower-case hexadecimal, two digits each.
pub fn hex_text(b: &[u8]) -> (r: String)
    ensures
        r@ == hex(b@),
{
    let mut r = String::new();
    let mut i: usize = 0;
    assert(b@.take(0) =~= Seq::empty());
    while i < b.len()
        invariant
            i <= b@.len(),
            r@ == hex(b@.take(i as int)),
        decreases b@.len() - i,
    {
        assert(b@.take(i + 1).drop_last() =~= b@.take(i as int));
        r.push(to_lower_hex(b[i] / 16));
        r.push(to_lower_hex(b[i] % 16));
        assert(r@ =~= hex(b@.take(i + 1)));
        i = i + 1;
    }
    assert(b@.take(b@.len() as int) =~= b@);
    r
}

/// `value` as it stands in a query string.
pub fn percent_encode_query(value: &str) -> (r: String)
    ensures
        r@ == percent_encoded(encode_utf8(value@)),
{
    let b: Vec<u8> = text::bytes_of(value);
    let mut r: String = String::new();
    let mut i: usize = 0;
    while i < b.len()
        invariant
            i <= b@.len(),
            r@ == percent_encoded(b@.take(i as int)),
        decreases b@.len() - i,
    {
        let x: u8 = b[i];
        let ghost done = r@;
        assert(b@.take(i + 1).drop_last() =~= b@.take(i as int));
        assert(b@.take(i + 1).last() == x);
        if (0x30 <= x && x <= 0x39) || (0x41 <= x && x <= 0x5A) || (0x61 <= x && x <= 0x7A) || x
            == 0x2D || x == 0x2E || x == 0x5F || x == 0x7E {
            r.push(x as char);
            assert(r@ =~= done + percent_encoded_byte(x));
        } else {
            r.push('%');
            r.push(to_upper_hex(x / 16));
            r.push(to_upper_hex(x % 16));
            assert(r@ =~= done + percent_encoded_byte(x));
        }
        i = i + 1;
    }
    assert(b@.take(b@.len() as int) =~= b@);
    r
}

// ---------------------------------------------------------------------------
// Reading a query
// ---------------------------------------------------------------------------

/// The raw value of the first parameter of this name among `parts`.
pub open spec fn first_raw(parts: Seq<Seq<char>>, name: Seq<char>) -> Option<Seq<char>>
    decreases parts.len(),
{
    if parts.len() == 0 {
        None
    } else if text::before(parts[0], '=') == name {
        Some(text::behind(parts[0], '='))
    } else {
        first_raw(parts.skip(1), name)
    }
}

/// The text that a raw value stands for, where it is one.
pub open spec fn value_text(raw: Seq<char>) -> Option<Seq<char>> {
    text::utf8_text(percent_decoded(encode_utf8(raw)))
}

/// The value of the first parameter of this name in a query string.
pub open spec fn query_value(query: Seq<char>, name: Seq<char>) -> Option<Seq<char>> {
    match first_raw(text::split(query, '&'), name) {
        Some(raw) => value_text(raw),
        None => None,
    }
}

/// The value of the first parameter `name` in a query string, decoded.
pub fn query_get(query: &str, name: &str) -> (r: Option<String>)
    ensures
        text::opt_text(r) == query_value(query@, name@),
{
    let parts: Vec<String> = text::split_on(query, '&');
    let ghost all = text::texts(parts@);
    let mut i: usize = 0;
    assert(all.skip(0) =~= all);
    while i < parts.len()
        invariant
            i <= parts@.len(),
            all == text::texts(parts@),
            all == text::split(query@, '&'),
            first_raw(all, name@) == first_raw(all.skip(i as int), name@),
        decreases parts@.len() - i,
    {
        assert(all.skip(i as int)[0] == parts@[i as int]@);
        let (key, raw) = text::sides(parts[i].as_str(), '=');
        if text::same(key.as_str(), name) {
            let bytes: Vec<u8> = text::bytes_of(raw.as_str());
            return text::text_of_bytes(percent_decode(&bytes));
        }
        assert(all.skip(i as int).skip(1) =~= all.skip(i + 1));
        i = i + 1;
    }
    None
}

// ---------------------------------------------------------------------------
// Writing a query
// ---------------------------------------------------------------------------

/// A URL with one more parameter.
pub open spec fn with_parameter(url: Seq<char>, name: Seq<char>, value: Seq<char>) -> Seq<char> {
    url + (if url.contains('?') {
        "&"@
    } else {
        "?"@
    }) + name + "="@ + percent_encoded(encode_utf8(value))
}

/// A URL with one more parameter, where it has a value.
pub open spec fn with_optional(url: Seq<char>, name: Seq<char>, value: Option<Seq<char>>) -> Seq<char> {
    match value {
        Some(v) => with_parameter(url, name, v),
        None => url,
    }
}

/// `url` with one more parameter, where it has a value.
pub fn append_query(url: &str, name: &str, value: Option<&str>) -> (r: String)
    ensures
        r@ == with_optional(url@, name@, text::opt_str(value)),
{
    let mut r: String = url.to_owned();
    match value {
        Some(v) => {
            if text::contains_char(url, '?') {
                r.append("&");
            } else {
                r.append("?");
            }
            r.append(name);
            r.append("=");
            let encoded: String = percent_encode_query(v);
            r.append(encoded.as_str());
        },
        None => {},
    }
    r
}

// ---------------------------------------------------------------------------
// Laws
// ---------------------------------------------------------------------------

proof fn lemma_decode_step(rest: Seq<u8>, b: u8)
    ensures
        percent_decoded(ascii_bytes(percent_encoded_byte(b)) + rest) == seq![b] + percent_decoded(
            rest,
        ),
{
    let e = ascii_bytes(percent_encoded_byte(b));
    let whole = e + rest;
    if unreserved_byte(b) {
        assert(e =~= seq![b]);
        assert(whole[0] == b);
        assert(whole.skip(1) =~= rest);
        assert(!escape_first(whole));
    } else {
        let h = b / 16;
        let l = b % 16;
        assert(e.len() == 3);
        assert(e[0] == 0x25);
        assert(e[1] == upper_hex(h) as u8);
        assert(e[2] == upper_hex(l) as u8);
        assert(hex_value(e[1]) == Some(h));
        assert(hex_value(e[2]) == Some(l));
        assert(whole[0] == e[0] && whole[1] == e[1] && whole[2] == e[2]);
        assert(whole.skip(3) =~= rest);
        assert(h * 16 + l == b) by (nonlinear_arith)
            requires
                h == b / 16,
                l == b % 16,
        ;
    }
}

/// The bytes of a text of ASCII characters.
pub open spec fn ascii_bytes(s: Seq<char>) -> Seq<u8> {
    Seq::new(s.len(), |i: int| s[i] as u8)
}

proof fn lemma_encoded_is_ascii(b: Seq<u8>)
    ensures
        is_ascii_chars(percent_encoded(b)),
    decreases b.len(),
{
    if b.len() > 0 {
        lemma_encoded_is_ascii(b.drop_last());
        assert(is_ascii_chars(percent_encoded_byte(b.last())));
    }
}

proof fn lemma_decode_encoded(b: Seq<u8>, tail: Seq<u8>)
    ensures
        percent_decoded(ascii_bytes(percent_encoded(b)) + tail) == b + percent_decoded(tail),
    decreases b.len(),
{
    if b.len() == 0 {
        assert(ascii_bytes(percent_encoded(b)) + tail =~= tail);
        assert(b + percent_decoded(tail) =~= percent_decoded(tail));
    } else {
        let head = b.drop_last();
        let last = ascii_bytes(percent_encoded_byte(b.last()));
        assert(ascii_bytes(percent_encoded(b)) + tail =~= ascii_bytes(percent_encoded(head)) + (last
            + tail));
        lemma_decode_encoded(head, last + tail);
        lemma_decode_step(tail, b.last());
        assert(head + (seq![b.last()] + percent_decoded(tail)) =~= b + percent_decoded(tail));
    }
}

/// A value that is written into a query is read back as it was, whatever characters it holds.
pub proof fn law_an_encoded_value_is_read_back(value: Seq<char>)
    ensures
        value_text(percent_encoded(encode_utf8(value))) == Some(value),
{
    let b = encode_utf8(value);
    let e = percent_encoded(b);
    lemma_encoded_is_ascii(b);
    is_ascii_chars_encode_utf8(e);
    assert(encode_utf8(e) =~= ascii_bytes(e));
    lemma_decode_encoded(b, Seq::empty());
    assert(ascii_bytes(e) + Seq::<u8>::empty() =~= ascii_bytes(e));
    assert(b + Seq::<u8>::empty() =~= b);
    encode_utf8_valid_utf8(value);
    encode_utf8_decode_utf8(value);
}

pub proof fn lemma_find_past(a: Seq<char>, b: Seq<char>, c: char)
    requires
        !a.contains(c),
    ensures
        text::find(a + b, c) == a.len() + text::find(b, c),
    decreases a.len(),
{
    if a.len() == 0 {
        assert(a + b =~= b);
    } else {
        assert(a.contains(a[0]));
        assert((a + b).skip(1) =~= a.skip(1) + b);
        assert(!a.skip(1).contains(c)) by {
            if a.skip(1).contains(c) {
                let k = choose|k: int| 0 <= k < a.skip(1).len() && a.skip(1)[k] == c;
                assert(a[k + 1] == c);
            }
        }
        lemma_find_past(a.skip(1), b, c);
    }
}

/// A text that is put together of two with a separator between them has the parts of both.
pub proof fn lemma_split_append(a: Seq<char>, b: Seq<char>, c: char)
    ensures
        text::split(a + seq![c] + b, c) == text::split(a, c) + text::split(b, c),
    decreases a.len(),
{
    let whole = a + seq![c] + b;
    text::lemma_find(a, c);
    let n = text::find(a, c) as int;
    if n >= a.len() {
        assert(whole =~= a + (seq![c] + b));
        lemma_find_past(a, seq![c] + b, c);
        assert(text::find(seq![c] + b, c) == 0);
        assert(text::find(whole, c) == a.len());
        assert(whole.take(a.len() as int) =~= a);
        assert(whole.skip(a.len() as int + 1) =~= b);
        assert(text::split(whole, c) =~= seq![a] + text::split(b, c));
    } else {
        let head = a.take(n);
        let tail = a.skip(n + 1);
        assert(!head.contains(c)) by {
            if head.contains(c) {
                let k = choose|k: int| 0 <= k < head.len() && head[k] == c;
                assert(a[k] == c);
            }
        }
        assert(whole =~= head + (seq![c] + tail + seq![c] + b));
        lemma_find_past(head, seq![c] + tail + seq![c] + b, c);
        assert(text::find(seq![c] + tail + seq![c] + b, c) == 0);
        assert(text::find(whole, c) == n);
        assert(whole.take(n) =~= head);
        assert(whole.skip(n + 1) =~= tail + seq![c] + b);
        lemma_split_append(tail, b, c);
        assert(text::split(whole, c) =~= seq![head] + (text::split(tail, c) + text::split(b, c)));
        assert(text::split(a, c) + text::split(b, c) =~= seq![head] + (text::split(tail, c)
            + text::split(b, c)));
    }
}

proof fn lemma_first_raw_append(a: Seq<Seq<char>>, b: Seq<Seq<char>>, name: Seq<char>)
    requires
        first_raw(a, name) is None,
    ensures
        first_raw(a + b, name) == first_raw(b, name),
    decreases a.len(),
{
    if a.len() == 0 {
        assert(a + b =~= b);
    } else {
        assert((a + b).skip(1) =~= a.skip(1) + b);
        lemma_first_raw_append(a.skip(1), b, name);
    }
}

proof fn lemma_encoded_is_plain(b: Seq<u8>)
    ensures
        !percent_encoded(b).contains('&'),
        !percent_encoded(b).contains('='),
    decreases b.len(),
{
    if b.len() > 0 {
        lemma_encoded_is_plain(b.drop_last());
        let a = percent_encoded(b.drop_last());
        let e = percent_encoded_byte(b.last());
        assert forall|k: int| 0 <= k < (a + e).len() implies (a + e)[k] != '&' && (a + e)[k]
            != '=' by {
            if k < a.len() {
                assert(a.contains(a[k]));
            } else {
                assert((a + e)[k] == e[k - a.len()]);
            }
        }
    }
}

/// A parameter that is added to a query is read back, whatever stands in the query before it and
/// whatever its value is, unless the query has a parameter of that name already.
pub proof fn law_a_parameter_is_read_back(query: Seq<char>, name: Seq<char>, value: Seq<char>)
    requires
        !name.contains('&'),
        !name.contains('='),
        first_raw(text::split(query, '&'), name) is None,
    ensures
        query_value(
            query + seq!['&'] + name + seq!['='] + percent_encoded(encode_utf8(value)),
            name,
        ) == Some(value),
{
    let e = percent_encoded(encode_utf8(value));
    let part = name + seq!['='] + e;
    lemma_encoded_is_plain(encode_utf8(value));
    assert(query + seq!['&'] + name + seq!['='] + e =~= query + seq!['&'] + part);
    lemma_split_append(query, part, '&');
    assert(!part.contains('&')) by {
        if part.contains('&') {
            let k = choose|k: int| 0 <= k < part.len() && part[k] == '&';
            if k < name.len() {
                assert(name[k] == '&');
            } else if k > name.len() {
                assert(e[k - name.len() - 1] == '&');
            }
        }
    }
    text::lemma_find(part, '&');
    assert(text::split(part, '&') =~= seq![part]);
    lemma_first_raw_append(text::split(query, '&'), seq![part], name);
    assert(part =~= name + (seq!['='] + e));
    lemma_find_past(name, seq!['='] + e, '=');
    assert(text::find(seq!['='] + e, '=') == 0);
    assert(text::before(part, '=') =~= name);
    assert(text::behind(part, '=') =~= e);
    law_an_encoded_value_is_read_back(value);
}

/// A value that is the only parameter of a query is read back from it.
pub proof fn law_the_only_parameter_is_read_back(name: Seq<char>, value: Seq<char>)
    requires
        !name.contains('&'),
        !name.contains('='),
    ensures
        query_value(name + seq!['='] + percent_encoded(encode_utf8(value)), name) == Some(value),
{
    let e = percent_encoded(encode_utf8(value));
    let part = name + seq!['='] + e;
    lemma_encoded_is_plain(encode_utf8(value));
    assert(!part.contains('&')) by {
        if part.contains('&') {
            let k = choose|k: int| 0 <= k < part.len() && part[k] == '&';
            if k < name.len() {
                assert(name[k] == '&');
            } else if k > name.len() {
                assert(e[k - name.len() - 1] == '&');
            }
        }
    }
    text::lemma_find(part, '&');
    assert(text::split(part, '&') =~= seq![part]);
    assert(part =~= name + (seq!['='] + e));
    lemma_find_past(name, seq!['='] + e, '=');
    assert(text::find(seq!['='] + e, '=') == 0);
    assert(text::before(part, '=') =~= name);
    assert(text::behind(part, '=') =~= e);
    law_an_encoded_value_is_read_back(value);
}

/// A text in hexadecimal has two characters for each byte, each of them a digit or one of the
/// first six lower-case letters.
pub proof fn law_hexadecimal_is_plain(b: Seq<u8>)
    ensures
        hex(b).len() == 2 * b.len(),
        forall|i: int|
            0 <= i < hex(b).len() ==> '0' <= #[trigger] hex(b)[i] <= '9' || 'a' <= hex(b)[i] <= 'f',
    decreases b.len(),
{
    if b.len() > 0 {
        law_hexadecimal_is_plain(b.drop_last());
    }
}

/// A parameter that is added to a URL without a query is the only one of its query and is read back
/// from it; a URL with a query keeps it, and the parameter stands behind it. Without a value the URL
/// is left as it is.
pub proof fn law_a_parameter_is_added_to_a_url(url: Seq<char>, name: Seq<char>, value: Seq<char>)
    ensures
        with_optional(url, name, None) == url,
        with_optional(url, name, Some(value)).len() > url.len(),
        with_optional(url, name, Some(value)).take(url.len() as int) == url,
        !url.contains('?') && !name.contains('&') && !name.contains('=') ==> query_value(
            text::behind(with_optional(url, name, Some(value)), '?'),
            name,
        ) == Some(value),
        url.contains('?') && !name.contains('&') && !name.contains('=') && first_raw(
            text::split(text::behind(url, '?'), '&'),
            name,
        ) is None ==> query_value(
            text::behind(with_optional(url, name, Some(value)), '?'),
            name,
        ) == Some(value),
        url.contains('?') ==> text::behind(url, '?').is_prefix_of(
            text::behind(with_optional(url, name, Some(value)), '?'),
        ),
{
    reveal_strlit("?");
    reveal_strlit("&");
    reveal_strlit("=");
    let e = percent_encoded(encode_utf8(value));
    let whole = with_optional(url, name, Some(value));
    assert("="@ =~= seq!['=']);
    assert(whole.take(url.len() as int) =~= url);
    if !url.contains('?') {
        let query = name + seq!['='] + e;
        assert(whole =~= url + (seq!['?'] + query));
        lemma_find_past(url, seq!['?'] + query, '?');
        assert(text::find(seq!['?'] + query, '?') == 0);
        assert(text::behind(whole, '?') =~= query);
        if !name.contains('&') && !name.contains('=') {
            law_the_only_parameter_is_read_back(name, value);
        }
    } else {
        text::lemma_find(url, '?');
        let n = text::find(url, '?') as int;
        let head = url.take(n);
        let query = url.skip(n + 1);
        assert(!head.contains('?')) by {
            if head.contains('?') {
                let k = choose|k: int| 0 <= k < head.len() && head[k] == '?';
                assert(url[k] == '?');
            }
        }
        let more = query + seq!['&'] + name + seq!['='] + e;
        assert(whole =~= head + (seq!['?'] + more));
        lemma_find_past(head, seq!['?'] + more, '?');
        assert(text::find(seq!['?'] + more, '?') == 0);
        assert(text::behind(whole, '?') =~= more);
        assert(text::behind(url, '?') =~= query);
        assert(more.subrange(0, query.len() as int) =~= query);
        if !name.contains('&') && !name.contains('=') && first_raw(
            text::split(text::behind(url, '?'), '&'),
            name,
        ) is None {
            law_a_parameter_is_read_back(query, name, value);
        }
    }
}

/// A query is read from its first parameter on: the first of a name counts, and one of another name
/// is passed over.
pub proof fn law_the_first_parameter_of_a_name_counts(
    key: Seq<char>,
    raw: Seq<char>,
    rest: Seq<char>,
    name: Seq<char>,
)
    requires
        !key.contains('&'),
        !key.contains('='),
        !raw.contains('&'),
    ensures
        key == name ==> query_value(key + seq!['='] + raw + seq!['&'] + rest, name) == value_text(
            raw,
        ),
        key != name ==> query_value(key + seq!['='] + raw + seq!['&'] + rest, name) == query_value(
            rest,
            name,
        ),
{
    let part = key + seq!['='] + raw;
    assert(!part.contains('&')) by {
        if part.contains('&') {
            let k = choose|k: int| 0 <= k < part.len() && part[k] == '&';
            if k < key.len() {
                assert(key[k] == '&');
            } else if k > key.len() {
                assert(raw[k - key.len() - 1] == '&');
            }
        }
    }
    let whole = part + seq!['&'] + rest;
    assert(key + seq!['='] + raw + seq!['&'] + rest =~= whole);
    lemma_split_append(part, rest, '&');
    text::lemma_find(part, '&');
    assert(text::split(part, '&') =~= seq![part]);
    let parts = text::split(whole, '&');
    assert(parts[0] == part);
    assert(parts.skip(1) =~= text::split(rest, '&'));
    text::law_a_text_has_two_sides(key, raw, '=');
}

} // verus!
