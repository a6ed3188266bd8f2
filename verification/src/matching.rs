//! The three ways a search query can match a line of text: as a
//! subsequence, as a substring, or as a case-insensitive regular expression.

use vstd::prelude::*;
use crate::text::{contains_chars, contains_seq};

verus! {

/// What building `pattern` as a case-insensitive regular expression reports:
/// `None` when it builds, the error's text when it does not.
pub uninterp spec fn regex_compile_error(pattern: Seq<char>) -> Option<Seq<char>>;

/// Whether the case-insensitive regular expression `pattern` matches
/// somewhere in `haystack`.
pub uninterp spec fn regex_match(pattern: Seq<char>, haystack: Seq<char>) -> bool;

/// Builds `pattern` with `regex::RegexBuilder`, case-insensitively, and
/// reports the error's text when the build fails.
///
/// Claimed: the result is a function of the pattern alone, `None` exactly
/// when `RegexBuilder::build` returns `Ok`.
#[verifier::external_body]
pub fn regex_error(pattern: &str) -> (r: Option<String>)
    ensures
        match r {
            Some(text) => regex_compile_error(pattern@) == Some(text@),
            None => regex_compile_error(pattern@) is None,
        },
{
    match regex::RegexBuilder::new(pattern).case_insensitive(true).build() {
        Ok(_) => None,
        Err(err) => Some(err.to_string()),
    }
}

/// Builds `pattern` with `regex::RegexBuilder`, case-insensitively, and
/// asks `Regex::is_match` whether it matches somewhere in `haystack`.
///
/// Claimed: the answer is a function of the pattern and the haystack alone.
/// The build cannot fail: the pattern is one that builds.
#[verifier::external_body]
pub fn regex_is_match(pattern: &str, haystack: &str) -> (r: bool)
    requires
        regex_compile_error(pattern@) is None,
    ensures
        r == regex_match(pattern@, haystack@),
{
    match regex::RegexBuilder::new(pattern).case_insensitive(true).build() {
        Ok(re) => re.is_match(haystack),
        Err(_) => false,
    }
}

/// Whether the characters of `needle` appear in `haystack` in order, not
/// necessarily side by side.
pub open spec fn is_subsequence(needle: Seq<char>, haystack: Seq<char>) -> bool
    decreases haystack.len(),
{
    if needle.len() == 0 {
        true
    } else if haystack.len() == 0 {
        false
    } else if haystack[0] == needle[0] {
        is_subsequence(needle.drop_first(), haystack.drop_first())
    } else {
        is_subsequence(needle, haystack.drop_first())
    }
}

proof fn lemma_subsequence_step(needle: Seq<char>, haystack: Seq<char>, i: int, j: int)
    requires
        0 <= i < haystack.len(),
        0 <= j < needle.len(),
    ensures
        is_subsequence(needle.skip(j), haystack.skip(i)) == (if haystack[i] == needle[j] {
            is_subsequence(needle.skip(j + 1), haystack.skip(i + 1))
        } else {
            is_subsequence(needle.skip(j), haystack.skip(i + 1))
        }),
{
    assert(haystack.skip(i).drop_first() == haystack.skip(i + 1));
    assert(needle.skip(j).drop_first() == needle.skip(j + 1));
}

/// Whether the characters of `needle` appear in `haystack` in order.
pub fn fuzzy_match(haystack: &Vec<char>, needle: &Vec<char>) -> (r: bool)
    ensures
        r == is_subsequence(needle@, haystack@),
{
    let mut i: usize = 0;
    let mut j: usize = 0;
    assert(needle@.skip(0) == needle@);
    assert(haystack@.skip(0) == haystack@);
    while i < haystack.len() && j < needle.len()
        invariant
            i <= haystack.len(),
            j <= needle.len(),
            is_subsequence(needle@, haystack@) == is_subsequence(needle@.skip(j as int), haystack@.skip(i as int)),
        decreases haystack.len() - i,
    {
        proof { lemma_subsequence_step(needle@, haystack@, i as int, j as int); }
        if haystack[i] == needle[j] {
            j += 1;
        }
        i += 1;
    }
    if j == needle.len() {
        assert(needle@.skip(j as int).len() == 0);
        true
    } else {
        assert(haystack@.skip(i as int).len() == 0);
        false
    }
}

/// Whether `needle` occurs in `haystack` side by side.
pub fn substring_match(haystack: &Vec<char>, needle: &Vec<char>) -> (r: bool)
    ensures
        r == contains_seq(haystack@, needle@),
{
    contains_chars(haystack, needle)
}

/// Whether the case-insensitive regular expression matches `haystack`; a
/// pattern that does not build matches nothing.
pub fn regex_search(pattern: &str, haystack: &Vec<char>) -> (r: bool)
    ensures
        r == (regex_compile_error(pattern@) is None && regex_match(pattern@, haystack@)),
{
    match regex_error(pattern) {
        Some(_) => false,
        None => {
            let text = crate::text::string_from_chars(haystack);
            regex_is_match(pattern, text.as_str())
        }
    }
}

} // verus!
