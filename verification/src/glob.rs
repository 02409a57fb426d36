//! Glob matching for variable names.
//!
//! Patterns are matched against the whole name, not path-aware and always
//! case-sensitive: `*` matches any run of characters, including none, and
//! `?` matches exactly one character.  Every other character matches only
//! itself.

use vstd::prelude::*;

verus! {

/// Whether the pattern suffix `p[i..]` matches the name suffix `s[j..]`.
pub open spec fn glob_from(p: Seq<char>, s: Seq<char>, i: int, j: int) -> bool
    decreases p.len() - i + s.len() - j,
    when 0 <= i <= p.len() && 0 <= j <= s.len()
{
    if i == p.len() {
        j == s.len()
    } else if p[i] == '*' {
        glob_from(p, s, i + 1, j) || (j < s.len() && glob_from(p, s, i, j + 1))
    } else if j == s.len() {
        false
    } else {
        (p[i] == '?' || p[i] == s[j]) && glob_from(p, s, i + 1, j + 1)
    }
}

/// Whether the glob pattern `p` matches the whole name `s`.
pub open spec fn spec_glob(p: Seq<char>, s: Seq<char>) -> bool {
    glob_from(p, s, 0, 0)
}

fn glob_rec(p: &Vec<char>, s: &Vec<char>, i: usize, j: usize) -> (r: bool)
    requires
        i <= p.len(),
        j <= s.len(),
    ensures
        r == glob_from(p@, s@, i as int, j as int),
    decreases p.len() - i + s.len() - j,
{
    if i == p.len() {
        j == s.len()
    } else if p[i] == '*' {
        if glob_rec(p, s, i + 1, j) {
            true
        } else if j < s.len() {
            glob_rec(p, s, i, j + 1)
        } else {
            false
        }
    } else if j == s.len() {
        false
    } else if p[i] == '?' || p[i] == s[j] {
        glob_rec(p, s, i + 1, j + 1)
    } else {
        false
    }
}

/// Whether the glob pattern `p` matches the whole name `s`.
pub fn glob_match_name(p: &Vec<char>, s: &Vec<char>) -> (r: bool)
    ensures
        r == spec_glob(p@, s@),
{
    glob_rec(p, s, 0, 0)
}

} // verus!
