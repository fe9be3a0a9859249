//! Regular expressions, matched by the crate `regex`. What a search returns is
//! not worked out here but named, as a function of the pattern and the text.

use regex::Regex;
use vstd::prelude::*;

verus! {

/// What the first two groups of the regular expression `pattern` capture in
/// its leftmost match in `text`, each as the text it matched, the empty text
/// for a group that took no part in the match or that `pattern` does not have.
/// `None` where `pattern` is no regular expression that can be compiled, and
/// where it matches nowhere in `text`.
pub uninterp spec fn captured_pair(pattern: Seq<char>, text: Seq<char>) -> Option<
    (Seq<char>, Seq<char>),
>;

/// The text of the leftmost match of the regular expression `pattern` in
/// `text`. `None` where `pattern` is no regular expression that can be
/// compiled, and where it matches nowhere in `text`.
pub uninterp spec fn first_match(pattern: Seq<char>, text: Seq<char>) -> Option<Seq<char>>;

/// `Regex::captures` of the crate `regex`, on the expression that `Regex::new`
/// compiles from `pattern`: searches `text` for the leftmost match and hands
/// out the text of its groups 1 and 2. Trusted to return what `captured_pair`
/// names, which depends on the two arguments alone.
#[verifier::external_body]
pub(crate) fn capture_pair(pattern: &str, text: &str) -> (r: Option<(String, String)>)
    ensures
        match r {
            Some(pair) => captured_pair(pattern@, text@) == Some((pair.0@, pair.1@)),
            None => captured_pair(pattern@, text@) is None,
        },
{
    let re = Regex::new(pattern).ok()?;
    let found = re.captures(text)?;
    let first = match found.get(1) {
        Some(m) => m.as_str().to_string(),
        None => String::new(),
    };
    let second = match found.get(2) {
        Some(m) => m.as_str().to_string(),
        None => String::new(),
    };
    Some((first, second))
}

/// `Regex::find` of the crate `regex`, on the expression that `Regex::new`
/// compiles from `pattern`: searches `text` for the leftmost match and hands
/// out its text. Trusted to return what `first_match` names, which depends on
/// the two arguments alone.
#[verifier::external_body]
pub(crate) fn find_match(pattern: &str, text: &str) -> (r: Option<String>)
    ensures
        match r {
            Some(found) => first_match(pattern@, text@) == Some(found@),
            None => first_match(pattern@, text@) is None,
        },
{
    let re = Regex::new(pattern).ok()?;
    let found = re.find(text)?;
    Some(found.as_str().to_string())
}

} // verus!
