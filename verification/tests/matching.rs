//! Name pattern matching: globs, regular expressions, and the fatal
//! configuration errors.

use envy_core::config::ConfigError;
use envy_core::config::make_separators;
use envy_core::glob::glob_match_name;
use envy_core::pattern::NamePattern;
use envy_core::regexes::compile_search;

fn cv(s: &str) -> Vec<char> {
    s.chars().collect()
}

#[test]
fn glob_star_prefix() {
    assert!(glob_match_name(&cv("FOO*"), &cv("FOOBAR")));
    assert!(glob_match_name(&cv("FOO*"), &cv("FOO")));
    assert!(!glob_match_name(&cv("FOO*"), &cv("BARFOO")));
}

#[test]
fn glob_question_mark() {
    assert!(glob_match_name(&cv("A?C"), &cv("ABC")));
    assert!(!glob_match_name(&cv("A?C"), &cv("AC")));
    assert!(!glob_match_name(&cv("A?C"), &cv("ABBC")));
}

#[test]
fn glob_matches_whole_name() {
    assert!(!glob_match_name(&cv("PATH"), &cv("PATHEXT")));
    assert!(glob_match_name(&cv("*"), &cv("")));
    assert!(glob_match_name(&cv("*"), &cv("ANYTHING")));
    assert!(glob_match_name(&cv("*SEP*"), &cv("ENVY_SEP_EXTRA")));
}

#[test]
fn glob_is_case_sensitive() {
    assert!(!glob_match_name(&cv("path"), &cv("PATH")));
}

#[test]
fn regex_case_insensitive_matches_name() {
    let re = compile_search(&cv("path"), true).unwrap();
    let pat = NamePattern::Regex(re);
    assert!(pat.matches_name(&cv("PATH")));
}

#[test]
fn regex_case_sensitive_respects_case() {
    let re = compile_search(&cv("path"), false).unwrap();
    let pat = NamePattern::Regex(re);
    assert!(!pat.matches_name(&cv("PATH")));
    assert!(pat.matches_name(&cv("mypath")));
}

#[test]
fn regex_is_substring_search() {
    let re = compile_search(&cv("AT"), false).unwrap();
    let pat = NamePattern::Regex(re);
    assert!(pat.matches_name(&cv("PATH")));
}

#[test]
fn invalid_regex_is_config_error() {
    match compile_search(&cv("("), false) {
        Err(ConfigError::InvalidPattern(msg)) => {
            assert!(!msg.is_empty());
        },
        _ => panic!("an unclosed group must be rejected"),
    }
}

#[test]
fn empty_regex_matches_everything() {
    let re = compile_search(&cv(""), false).unwrap();
    let pat = NamePattern::Regex(re);
    assert!(pat.matches_name(&cv("")));
    assert!(pat.matches_name(&cv("HOME")));
}

#[test]
fn empty_separator_set_is_config_error() {
    match make_separators(Vec::new()) {
        Err(ConfigError::EmptySeparatorSet) => {},
        _ => panic!("an empty separator set must be rejected"),
    }
}

#[test]
fn nonempty_separator_set_is_kept() {
    let seps = make_separators(cv(":,")).unwrap();
    assert_eq!(seps, cv(":,"));
}
