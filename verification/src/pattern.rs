//! The name pattern: a closed choice between a glob and a compiled
//! regular expression, with a single matching capability.
//!
//! Glob matching covers the whole name and is always case-sensitive; a
//! case-insensitive match is only reachable through the regex form, whose
//! flag is applied when it is compiled.

use vstd::prelude::*;

use crate::glob::spec_glob;
use crate::regexes::re_found;
use crate::regexes::SearchRegex;
use crate::regexes::SearchRegexView;

verus! {

/// How variable names are selected for display.
pub enum NamePattern {
    /// A glob over the whole name: `*` and `?` wildcards.
    Glob(Vec<char>),
    /// A compiled regular expression, matched as a substring search.
    Regex(SearchRegex),
}

/// Mathematical image of a [`NamePattern`].
pub ghost enum NamePatternView {
    Glob(Seq<char>),
    Regex(SearchRegexView),
}

impl View for NamePattern {
    type V = NamePatternView;

    open spec fn view(&self) -> NamePatternView {
        match self {
            NamePattern::Glob(g) => NamePatternView::Glob(g@),
            NamePattern::Regex(r) => NamePatternView::Regex(r@),
        }
    }
}

/// Whether the pattern selects the name.
pub open spec fn name_selected(p: NamePatternView, name: Seq<char>) -> bool {
    match p {
        NamePatternView::Glob(g) => spec_glob(g, name),
        NamePatternView::Regex(r) => re_found(r.pattern, r.case_insensitive, name),
    }
}

impl NamePattern {
    /// Whether this pattern selects `name`.
    pub fn matches_name(&self, name: &Vec<char>) -> (r: bool)
        ensures
            r == name_selected(self@, name@),
    {
        match self {
            NamePattern::Glob(g) => crate::glob::glob_match_name(g, name),
            NamePattern::Regex(re) => crate::regexes::regex_found(re, name),
        }
    }
}

} // verus!
