//! Deciding whether a configured hook applies to a subject.
//!
//! A hook may declare a regex pattern. An absent pattern matches every
//! subject; a pattern that does not compile matches none, and is never a
//! fatal error. Patterns are compiled per call, so declaration order is
//! never disturbed by a cache.

use vstd::prelude::*;

verus! {

/// Whether `pattern` is a regex that the regex engine accepts. The engine
/// decides this from the pattern text alone.
pub uninterp spec fn regex_compiles(pattern: Seq<char>) -> bool;

/// Whether the regex `pattern` matches anywhere in `subject`. The engine
/// decides this from the two texts alone.
pub uninterp spec fn regex_matches(pattern: Seq<char>, subject: Seq<char>) -> bool;

/// Relies on regex::Regex::new and regex::Regex::is_match: whether the
/// pattern compiles, and whether it then matches somewhere in the subject,
/// depend on the pattern and subject texts alone.
#[verifier::external_body]
fn regex_match(pattern: &str, subject: &str) -> (r: Option<bool>)
    ensures
        r is Some <==> regex_compiles(pattern@),
        r matches Some(m) ==> m == regex_matches(pattern@, subject@),
{
    regex::Regex::new(pattern).ok().map(|re| re.is_match(subject))
}

/// Whether a hook with matcher `m` fires for `subject`: an absent matcher
/// always fires, a pattern that does not compile never fires, and
/// otherwise the regex engine decides.
pub open spec fn matcher_accepts(m: Option<Seq<char>>, subject: Seq<char>) -> bool {
    match m {
        None => true,
        Some(p) => regex_compiles(p) && regex_matches(p, subject),
    }
}

/// Decide whether a hook's matcher accepts a subject.
pub fn matcher_matches(matcher: Option<&String>, subject: &str) -> (r: bool)
    ensures
        r == matcher_accepts(
            match matcher {
                None => None,
                Some(s) => Some(s@),
            },
            subject@,
        ),
{
    match matcher {
        None => true,
        Some(pattern) => match regex_match(pattern.as_str(), subject) {
            None => false,
            Some(m) => m,
        },
    }
}

/// An absent matcher fires for every subject.
pub proof fn lemma_matcher_absent_always_fires(subject: Seq<char>)
    ensures
        matcher_accepts(None, subject),
{
}

/// A pattern that does not compile fires for no subject.
pub proof fn lemma_matcher_invalid_never_fires(pattern: Seq<char>, subject: Seq<char>)
    requires
        !regex_compiles(pattern),
    ensures
        !matcher_accepts(Some(pattern), subject),
{
}

} // verus!
