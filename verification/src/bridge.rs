//! The calls that leave this crate: regular expressions (`regex`), the
//! public suffix list (`psl`), and one method of `String`. What these calls
//! return is believed, not proved; everything else in the crate is proved
//! from what is stated here.

use vstd::prelude::*;

verus! {

/// A compiled regular expression of the `regex` crate.
#[verifier::external_type_specification]
#[verifier::external_body]
pub struct ExRegex(regex::Regex);

/// The error of the `regex` crate for a pattern that it does not compile.
#[verifier::external_type_specification]
#[verifier::external_body]
pub struct ExRegexError(regex::Error);

/// What `Regex::new` returns for a pattern: the compiled expression,
/// where the pattern is accepted.
pub uninterp spec fn regex_of(pattern: Seq<char>) -> Option<regex::Regex>;

/// What `Regex::is_match` returns: whether the expression finds a match
/// anywhere in the haystack.
pub uninterp spec fn regex_finds(re: regex::Regex, haystack: Seq<char>) -> bool;

/// What `psl::domain_str` returns for a host name: its registrable domain
/// under the public suffix list, where it has one.
pub uninterp spec fn registrable_part(host: Seq<char>) -> Option<Seq<char>>;

/// The pattern is one that compiles.
pub open spec fn regex_compiles(pattern: Seq<char>) -> bool {
    regex_of(pattern) is Some
}

/// The pattern compiles, and what it compiles to finds a match anywhere
/// in the haystack.
pub open spec fn regex_matches(pattern: Seq<char>, haystack: Seq<char>) -> bool {
    regex_of(pattern) is Some && regex_finds(regex_of(pattern)->0, haystack)
}

/// `Regex::new`: compiles a pattern. What comes back depends on the
/// pattern alone.
#[verifier::external_body]
pub(crate) fn compile_regex(pattern: &str) -> (r: Result<regex::Regex, regex::Error>)
    ensures
        match r {
            Ok(re) => regex_of(pattern@) == Some(re),
            Err(_) => regex_of(pattern@) is None,
        },
{
    regex::Regex::new(pattern)
}

/// `Regex::is_match`: whether the expression finds a match anywhere in
/// the haystack. The answer depends on the expression and on the haystack alone.
#[verifier::external_body]
pub(crate) fn regex_is_match(re: &regex::Regex, haystack: &str) -> (r: bool)
    ensures
        r == regex_finds(*re, haystack@),
{
    re.is_match(haystack)
}

/// `psl::domain_str`: the registrable domain of a host name, where the
/// public suffix list gives it one.
#[verifier::external_body]
pub(crate) fn psl_domain(host: &str) -> (r: Option<String>)
    ensures
        match r {
            Some(d) => registrable_part(host@) == Some(d@),
            None => registrable_part(host@) is None,
        },
{
    psl::domain_str(host).map(|d| d.to_string())
}

/// `String::push`: appends one character to the end of the string.
pub assume_specification[ String::push ](s: &mut String, c: char)
    ensures
        final(s)@ == old(s)@.push(c),
;

} // verus!
