//! Glob patterns, compiled and matched by the `glob` crate.

use glob::Pattern;
use vstd::prelude::*;

verus! {

/// Whether `Pattern::new` accepts `pattern` as the text of a glob pattern.
pub uninterp spec fn glob_valid(pattern: Seq<char>) -> bool;

/// Whether the pattern compiled from `pattern` matches the whole of `text`, as
/// `Pattern::matches` decides it: case-sensitive, `*` and `?` may stand for a
/// separator, and a leading dot needs no literal dot.
pub uninterp spec fn glob_matches(pattern: Seq<char>, text: Seq<char>) -> bool;

/// Calls `Pattern::new` and says whether it returned a pattern. The contract
/// names that answer.
#[verifier::external_body]
pub(crate) fn pattern_compiles(pattern: &str) -> (ok: bool)
    ensures
        ok == glob_valid(pattern@),
{
    Pattern::new(pattern).is_ok()
}

/// Compiles `pattern` and calls `Pattern::matches` on `text`. The contract names
/// the answer; it asks for a pattern that compiles.
#[verifier::external_body]
pub(crate) fn pattern_matches(pattern: &str, text: &str) -> (hit: bool)
    requires
        glob_valid(pattern@),
    ensures
        hit == glob_matches(pattern@, text@),
{
    match Pattern::new(pattern) {
        Ok(compiled) => compiled.matches(text),
        Err(_) => false,
    }
}

} // verus!
