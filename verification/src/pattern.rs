//! Glob patterns over names.
use vstd::prelude::*;

verus! {

/// Whether `glob::Pattern::new` accepts the pattern text.
pub uninterp spec fn spec_glob_valid(pattern: Seq<char>) -> bool;

/// Whether the `glob::Pattern` compiled from the pattern text matches a name.
pub uninterp spec fn spec_glob_matches(pattern: Seq<char>, name: Seq<char>) -> bool;

/// Calls `glob::Pattern::new` and reports whether the pattern compiled. Trusted:
/// the result is named `spec_glob_valid` of the pattern text.
#[verifier::external_body]
pub(crate) fn glob_pattern_is_valid(pattern: &str) -> (r: bool)
    ensures
        r == spec_glob_valid(pattern@),
{
    glob::Pattern::new(pattern).is_ok()
}

/// Calls `glob::Pattern::matches` on the pattern compiled from `pattern` by
/// `glob::Pattern::new`, or on the default (empty) pattern when it does not compile.
/// Trusted: the result is named `spec_glob_matches` of the pattern and the name; the
/// default pattern has no tokens, so glob's matcher accepts only the empty name.
#[verifier::external_body]
pub(crate) fn glob_matches(pattern: &str, name: &str) -> (r: bool)
    ensures
        r == spec_glob_matches(pattern@, name@),
        !spec_glob_valid(pattern@) ==> (r <==> name@.len() == 0),
{
    glob::Pattern::new(pattern).unwrap_or_default().matches(name)
}

} // verus!
