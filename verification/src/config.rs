//! Run configuration and configuration errors.
//!
//! A configuration error is fatal: the caller reports it and stops before
//! any variable is processed.  Everything else in the library is total.

use vstd::prelude::*;

use crate::annotate::search_view;
use crate::pattern::NamePattern;
use crate::pattern::NamePatternView;
use crate::regexes::SearchRegex;
use crate::regexes::SearchRegexView;

verus! {

/// Everything one run is configured with.
pub struct Config {
    /// How variable names are selected.
    pub pattern: NamePattern,
    /// The optional search over segment contents.
    pub search: Option<SearchRegex>,
    /// Whether runs of non-matching segments are elided.
    pub only_matching: bool,
    /// Whether segment contents are checked for existence on disk.
    pub check_paths: bool,
    /// The platform's path separator; a value containing none of these is
    /// never path-checked.
    pub path_separator: char,
    /// The separator character set values are split on.
    pub separators: Vec<char>,
    /// Whether styling is emitted; when off, fallback markers carry the
    /// found/missing signal instead.
    pub use_color: bool,
}

/// Mathematical image of a [`Config`].
#[verifier::ext_equal]
pub ghost struct ConfigView {
    pub pattern: NamePatternView,
    pub search: Option<SearchRegexView>,
    pub only_matching: bool,
    pub check_paths: bool,
    pub path_separator: char,
    pub separators: Seq<char>,
    pub use_color: bool,
}

impl View for Config {
    type V = ConfigView;

    open spec fn view(&self) -> ConfigView {
        ConfigView {
            pattern: self.pattern@,
            search: search_view(self.search),
            only_matching: self.only_matching,
            check_paths: self.check_paths,
            path_separator: self.path_separator,
            separators: self.separators@,
            use_color: self.use_color,
        }
    }
}

/// A fatal configuration error.
#[derive(Debug)]
pub enum ConfigError {
    /// A name or search pattern did not compile as a regular expression;
    /// the payload is the description reported by the regex engine.
    InvalidPattern(String),
    /// The separator character set override is empty and therefore
    /// unusable as a character class.
    EmptySeparatorSet,
}

/// Validates a separator character set: it must contain at least one
/// character to be usable as a character class.
pub fn make_separators(chars: Vec<char>) -> (r: Result<Vec<char>, ConfigError>)
    ensures
        chars@.len() > 0 ==> r == Result::<Vec<char>, ConfigError>::Ok(chars),
        chars@.len() == 0 ==> r == Result::<Vec<char>, ConfigError>::Err(
            ConfigError::EmptySeparatorSet,
        ),
{
    if chars.len() == 0 {
        Err(ConfigError::EmptySeparatorSet)
    } else {
        Ok(chars)
    }
}

} // verus!
