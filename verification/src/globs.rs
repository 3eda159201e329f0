//! Glob pattern matching, delegated to the `glob` crate.
//!
//! Whether a pattern is well-formed and whether it matches a path are both
//! pure functions of the texts involved; the library names them and lets the
//! `glob` crate compute them.

use vstd::prelude::*;

verus! {

/// Whether glob pattern syntax accepts this pattern text: the verdict of
/// `glob::Pattern::new`, which depends on the pattern text alone.
pub uninterp spec fn pattern_ok(pattern: Seq<char>) -> bool;

/// Whether a well-formed glob pattern matches a path: the verdict of
/// `glob::Pattern::matches`, which depends on the pattern and path texts
/// alone.
pub uninterp spec fn pattern_match(pattern: Seq<char>, path: Seq<char>) -> bool;

/// Relies on `glob::Pattern::new`: it parses the pattern text
/// deterministically and returns `Ok` exactly on well-formed glob syntax.
#[verifier::external_body]
pub(crate) fn check_pattern(pattern: &str) -> (r: bool)
    ensures
        r == pattern_ok(pattern@),
{
    glob::Pattern::new(pattern).is_ok()
}

/// Relies on `glob::Pattern::new` and `glob::Pattern::matches`: parsing and
/// matching are deterministic in the pattern and path texts, and a malformed
/// pattern matches nothing.
#[verifier::external_body]
pub(crate) fn match_pattern(pattern: &str, path: &str) -> (r: bool)
    ensures
        r == (pattern_ok(pattern@) && pattern_match(pattern@, path@)),
{
    match glob::Pattern::new(pattern) {
        Ok(compiled) => compiled.matches(path),
        Err(_) => false,
    }
}

} // verus!
