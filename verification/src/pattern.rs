//! Regular expressions over paths.

use vstd::prelude::*;

verus! {

/// `regex::Regex`, a compiled regular expression.
#[verifier::external_type_specification]
#[verifier::external_body]
pub struct ExRegex(regex::Regex);

/// The regular expression that a text is compiled to, or the message with which it is refused:
/// what `regex::Regex::new` returns.
pub uninterp spec fn pattern_compiled(pattern: Seq<char>) -> Result<regex::Regex, Seq<char>>;

/// Whether a regular expression matches somewhere in a text: what `regex::Regex::is_match`
/// returns.
pub uninterp spec fn pattern_matches(re: regex::Regex, haystack: Seq<char>) -> bool;

/// What the group of this name captures in the leftmost match: `regex::Regex::captures`, and
/// `name` of its result. `None` without a match, without such a group, and where the group took
/// no part in the match.
pub uninterp spec fn pattern_group(re: regex::Regex, haystack: Seq<char>, name: Seq<char>) -> Option<Seq<char>>;

/// `regex::Regex::new`: compiles `pattern`, or refuses it with a message. What comes of it depends
/// on the text alone.
#[verifier::external_body]
pub(crate) fn compile(pattern: &str) -> (r: Result<regex::Regex, String>)
    ensures
        match r {
            Ok(re) => pattern_compiled(pattern@) == Ok::<regex::Regex, Seq<char>>(re),
            Err(message) => pattern_compiled(pattern@) == Err::<regex::Regex, Seq<char>>(message@),
        },
{
    regex::Regex::new(pattern).map_err(|error| error.to_string())
}

/// `regex::Regex::is_match`: whether the expression matches somewhere in `haystack`.
#[verifier::external_body]
pub(crate) fn is_match(re: &regex::Regex, haystack: &str) -> (r: bool)
    ensures
        r == pattern_matches(*re, haystack@),
{
    re.is_match(haystack)
}

/// `regex::Regex::captures` and `regex::Captures::name`: what the group of this name captures in
/// the leftmost match in `haystack`.
#[verifier::external_body]
pub(crate) fn captured(re: &regex::Regex, haystack: &str, name: &str) -> (r: Option<String>)
    ensures
        crate::text::opt_text(r) == pattern_group(*re, haystack@, name@),
{
    re.captures(haystack)?.name(name).map(|group| group.as_str().to_owned())
}

} // verus!
