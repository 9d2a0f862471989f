//! What a handler answers, as plain values.

use vstd::prelude::*;

use crate::text;

verus! {

/// An HTTP response: its status, its headers in order, and its body. A header whose value cannot be
/// sent is left out when it goes out, see [`as_sent`].
#[derive(Debug, Clone, PartialEq, Eq)]
pub struct Reply {
    pub status: u16,
    pub headers: Vec<(String, String)>,
    pub body: String,
}

/// The model of a [`Reply`].
#[verifier::ext_equal]
pub struct ReplyView {
    pub status: u16,
    pub headers: Seq<(Seq<char>, Seq<char>)>,
    pub body: Seq<char>,
}

/// The texts of a list of pairs of strings.
pub open spec fn pairs(v: Seq<(String, String)>) -> Seq<(Seq<char>, Seq<char>)> {
    v.map_values(|p: (String, String)| (p.0@, p.1@))
}

impl View for Reply {
    type V = ReplyView;

    open spec fn view(&self) -> ReplyView {
        ReplyView { status: self.status, headers: pairs(self.headers@), body: self.body@ }
    }
}

/// A character that can stand in the value of a header: a tab, and every other but the control
/// characters.
pub open spec fn sendable_char(c: char) -> bool {
    c as u32 == 9 || (c as u32 >= 32 && c as u32 != 127)
}

/// The text can be the value of a header.
pub open spec fn sendable(value: Seq<char>) -> bool {
    forall|i: int| 0 <= i < value.len() ==> sendable_char(#[trigger] value[i])
}

/// Whether the text can be the value of a header.
pub fn is_sendable(value: &str) -> (r: bool)
    ensures
        r == sendable(value@),
{
    let v: Vec<char> = text::chars_of(value);
    let mut i: usize = 0;
    while i < v.len()
        invariant
            v@ == value@,
            i <= v@.len(),
            forall|k: int| 0 <= k < i ==> sendable_char(#[trigger] value@[k]),
        decreases v@.len() - i,
    {
        let n: u32 = v[i] as u32;
        if n != 9 && (n < 32 || n == 127) {
            assert(!sendable_char(value@[i as int]));
            return false;
        }
        i = i + 1;
    }
    true
}

/// Whether all of the texts can be values of headers.
pub fn are_sendable(values: &Vec<String>) -> (r: bool)
    ensures
        r == (forall|k: int| 0 <= k < values@.len() ==> sendable(#[trigger] text::texts(values@)[k])),
{
    let ghost all = text::texts(values@);
    let mut i: usize = 0;
    while i < values.len()
        invariant
            i <= values@.len(),
            all == text::texts(values@),
            forall|k: int| 0 <= k < i ==> sendable(#[trigger] all[k]),
        decreases values@.len() - i,
    {
        if !is_sendable(values[i].as_str()) {
            assert(!sendable(all[i as int]));
            return false;
        }
        i = i + 1;
    }
    true
}

/// The headers that go out: those whose values can be sent.
pub open spec fn sent(headers: Seq<(Seq<char>, Seq<char>)>) -> Seq<(Seq<char>, Seq<char>)> {
    headers.filter(|h: (Seq<char>, Seq<char>)| sendable(h.1))
}

/// The response as it goes out.
pub fn as_sent(reply: Reply) -> (r: Reply)
    ensures
        r@ == (ReplyView { headers: sent(reply@.headers), ..reply@ }),
{
    let ghost all = pairs(reply.headers@);
    let ghost keep = |h: (Seq<char>, Seq<char>)| sendable(h.1);
    let mut headers: Vec<(String, String)> = Vec::new();
    let mut i: usize = 0;
    proof {
        reveal(Seq::filter);
    }
    assert(pairs(headers@) =~= all.take(0).filter(keep));
    while i < reply.headers.len()
        invariant
            i <= reply.headers@.len(),
            all == pairs(reply.headers@),
            keep == (|h: (Seq<char>, Seq<char>)| sendable(h.1)),
            pairs(headers@) == all.take(i as int).filter(keep),
        decreases reply.headers@.len() - i,
    {
        assert(all.take(i + 1).drop_last() =~= all.take(i as int));
        proof {
            reveal(Seq::filter);
        }
        let header = &reply.headers[i];
        if is_sendable(header.1.as_str()) {
            add_header(&mut headers, header.0.as_str(), header.1.as_str());
        }
        i = i + 1;
    }
    assert(all.take(all.len() as int) =~= all);
    Reply { status: reply.status, headers, body: reply.body }
}

/// The response where none could be made: it says nothing.
pub open spec fn failure() -> ReplyView {
    ReplyView { status: 500, headers: Seq::empty(), body: Seq::empty() }
}

/// The response where none could be made.
pub fn fail() -> (r: Reply)
    ensures
        r@ == failure(),
{
    let r = Reply { status: 500, headers: Vec::new(), body: String::new() };
    assert(r@ =~= failure());
    r
}

/// The name and the value of one header.
pub fn header(name: &str, value: &str) -> (p: (String, String))
    ensures
        p.0@ == name@,
        p.1@ == value@,
{
    (name.to_owned(), value.to_owned())
}

/// A copy of a list of headers.
pub fn clone_pairs(v: &Vec<(String, String)>) -> (r: Vec<(String, String)>)
    ensures
        r@ == v@,
{
    let mut r: Vec<(String, String)> = Vec::new();
    let mut i: usize = 0;
    while i < v.len()
        invariant
            i <= v@.len(),
            r@ == v@.take(i as int),
        decreases v@.len() - i,
    {
        assert(v@.take(i + 1) =~= v@.take(i as int).push(v@[i as int]));
        r.push((v[i].0.clone(), v[i].1.clone()));
        i = i + 1;
    }
    assert(v@.take(v@.len() as int) =~= v@);
    r
}

/// The headers of a response with this content type.
pub fn content_type(value: &str) -> (v: Vec<(String, String)>)
    ensures
        pairs(v@) == seq![("content-type"@, value@)],
{
    let mut v: Vec<(String, String)> = Vec::new();
    v.push(header("content-type", value));
    assert(pairs(v@) =~= seq![("content-type"@, value@)]);
    v
}

/// Adds a header at the end of the list.
pub fn add_header(v: &mut Vec<(String, String)>, name: &str, value: &str)
    ensures
        pairs(final(v)@) == pairs(old(v)@).push((name@, value@)),
{
    let ghost before = v@;
    v.push(header(name, value));
    assert(pairs(v@) =~= pairs(before).push((name@, value@)));
}

/// A text can be sent where it holds no control character but a tab: every visible character, a
/// space, and what is beyond ASCII can be sent, and no line break can.
pub proof fn law_what_splits_no_header_can_be_sent(value: Seq<char>, i: int)
    ensures
        (forall|k: int|
            0 <= k < value.len() ==> ((#[trigger] value[k]) as u32 >= 0x20 && value[k] as u32 != 0x7F)
                || value[k] == '\t') ==> sendable(value),
        0 <= i < value.len() && (value[i] == '\r' || value[i] == '\n' || value[i] as u32 == 0
            || value[i] as u32 == 0x7F) ==> !sendable(value),
        0 <= i < value.len() && (value[i] as u32) < 0x20 && value[i] as u32 != 9 ==> !sendable(value),
{
    if 0 <= i < value.len() {
        if sendable(value) {
            assert(sendable_char(value[i]));
        }
    }
}

/// Of the headers those go out whose values can be sent, in their order, and no other.
pub proof fn law_the_headers_that_can_be_sent_go_out(
    headers: Seq<(Seq<char>, Seq<char>)>,
    name: Seq<char>,
    value: Seq<char>,
)
    ensures
        sent(Seq::empty()).len() == 0,
        sendable(value) ==> sent(headers.push((name, value))) == sent(headers).push((name, value)),
        !sendable(value) ==> sent(headers.push((name, value))) == sent(headers),
{
    reveal(Seq::filter);
    let all = headers.push((name, value));
    assert(all.drop_last() =~= headers);
    assert(all.last() == (name, value));
}

/// A response is sent with its status, its headers in their order and its body.
pub proof fn law_a_response_is_sent_as_it_is(reply: Reply)
    ensures
        reply@.status == reply.status,
        reply@.body == reply.body@,
        reply@.headers.len() == reply.headers@.len(),
        forall|i: int|
            0 <= i < reply.headers@.len() ==> #[trigger] reply@.headers[i] == (
                reply.headers@[i].0@,
                reply.headers@[i].1@,
            ),
{
}

} // verus!
