//! The boundary to the regex engine.
//!
//! Regular-expression compilation and matching are done by the `regex`
//! crate.  A compiled expression is carried in a [`SearchRegex`] together
//! with the pattern text and case flag it was compiled from, and what the
//! engine computes is named by uninterpreted spec functions of those two
//! and the haystack: compilation success, whether a match exists, and the
//! text produced by wrapping every match in markup.  Only the wrappers in
//! this module touch the engine, so every `SearchRegex` was built by
//! [`build_regex`] and its view describes its compiled expression.

use vstd::prelude::*;

use crate::config::ConfigError;

verus! {

/// Declares regex::Regex so compiled expressions can stand in fields;
/// the type stays opaque to the verifier.
#[verifier::external_type_specification]
#[verifier::external_body]
pub struct ExRegex(regex::Regex);

/// A compiled regular expression, with the pattern text and case flag it
/// was compiled from.
pub struct SearchRegex {
    re: regex::Regex,
    pattern: Vec<char>,
    case_insensitive: bool,
}

/// Mathematical image of a [`SearchRegex`]: what it was compiled from.
#[verifier::ext_equal]
pub ghost struct SearchRegexView {
    pub pattern: Seq<char>,
    pub case_insensitive: bool,
}

impl View for SearchRegex {
    type V = SearchRegexView;

    closed spec fn view(&self) -> SearchRegexView {
        SearchRegexView { pattern: self.pattern@, case_insensitive: self.case_insensitive }
    }
}

/// Whether `pattern` compiles as a regular expression under the given
/// case flag and the engine's default configuration.
pub uninterp spec fn re_valid(pattern: Seq<char>, case_insensitive: bool) -> bool;

/// Whether the expression compiled from `pattern` under `case_insensitive`
/// finds a match anywhere in `haystack` (substring search, not anchored).
pub uninterp spec fn re_found(pattern: Seq<char>, case_insensitive: bool, haystack: Seq<char>) -> bool;

/// The text obtained from `haystack` by replacing every non-overlapping
/// match of the expression compiled from `pattern` under `case_insensitive`
/// with `pre`, the matched text, then `post`.
pub uninterp spec fn re_wrapped(
    pattern: Seq<char>,
    case_insensitive: bool,
    haystack: Seq<char>,
    pre: Seq<char>,
    post: Seq<char>,
) -> Seq<char>;

/// Relies on regex::RegexBuilder::{new, case_insensitive, build}: whether
/// building succeeds, with the default size limits, depends only on the
/// pattern text and the case flag; on success the compiled expression is
/// the one for that pattern and flag; on failure the error describes the
/// rejected pattern.
#[verifier::external_body]
fn build_regex(pattern: &Vec<char>, case_insensitive: bool) -> (r: Result<SearchRegex, String>)
    ensures
        r is Ok <==> re_valid(pattern@, case_insensitive),
        r matches Ok(s) ==> s@.pattern == pattern@ && s@.case_insensitive == case_insensitive,
{
    let text: String = pattern.iter().collect();
    let built = regex::RegexBuilder::new(&text).case_insensitive(case_insensitive).build();
    match built {
        Ok(re) => Ok(SearchRegex { re, pattern: pattern.clone(), case_insensitive }),
        Err(e) => Err(e.to_string()),
    }
}

/// Relies on regex::Regex::is_match: whether a match exists anywhere in
/// the haystack is a function of the compiled pattern and the haystack.
#[verifier::external_body]
pub(crate) fn regex_found(r: &SearchRegex, haystack: &Vec<char>) -> (b: bool)
    ensures
        b == re_found(r@.pattern, r@.case_insensitive, haystack@),
{
    let h: String = haystack.iter().collect();
    r.re.is_match(&h)
}

/// Relies on regex::Regex::replace_all with the replacement string
/// `pre + "$0" + post` (`$0` standing for the matched text, with the
/// engine's usual `$`-expansion): the result is a function of the
/// compiled pattern, the haystack and the two insertions, and when no
/// match is found the haystack is returned unchanged.
#[verifier::external_body]
pub(crate) fn regex_wrap_matches(
    r: &SearchRegex,
    haystack: &Vec<char>,
    pre: &Vec<char>,
    post: &Vec<char>,
) -> (out: Vec<char>)
    ensures
        out@ == re_wrapped(r@.pattern, r@.case_insensitive, haystack@, pre@, post@),
        !re_found(r@.pattern, r@.case_insensitive, haystack@) ==> out@ == haystack@,
{
    let h: String = haystack.iter().collect();
    let p: String = pre.iter().collect();
    let q: String = post.iter().collect();
    let rep = format!("{}$0{}", p, q);
    let replaced = r.re.replace_all(&h, rep.as_str());
    replaced.chars().collect()
}

/// Compiles a search or name pattern, treating a failure to compile as
/// the fatal configuration error it is.
pub fn compile_search(pattern: &Vec<char>, case_insensitive: bool) -> (r: Result<
    SearchRegex,
    ConfigError,
>)
    ensures
        r is Ok <==> re_valid(pattern@, case_insensitive),
        r matches Ok(s) ==> s@.pattern == pattern@ && s@.case_insensitive == case_insensitive,
        r matches Err(e) ==> e is InvalidPattern,
{
    match build_regex(pattern, case_insensitive) {
        Ok(s) => Ok(s),
        Err(m) => Err(ConfigError::InvalidPattern(m)),
    }
}

} // verus!
