//! Shell-style patterns, as the `glob` crate compiles and matches them.
//! How a pattern matches is not spelled out here: the crate decides, and the
//! contracts of the tools speak of its verdicts by name.

use vstd::prelude::*;

verus! {

/// `glob::Pattern`, a compiled pattern. Nothing is known of what is
/// inside one but the text that it was made from.
#[verifier::external_type_specification]
#[verifier::external_body]
pub struct ExPattern(glob::Pattern);

/// Whether `glob::Pattern::new` accepts the pattern text.
pub uninterp spec fn glob_valid(pattern: Seq<char>) -> bool;

/// The pattern text that a compiled pattern was made from.
pub uninterp spec fn glob_source(compiled: glob::Pattern) -> Seq<char>;

/// Whether the pattern, once compiled, matches the whole of `text` under the
/// crate's default options. The relation is the one of the platform that the
/// crate is built for: where the platform has two path separators the crate
/// lets either stand for the other.
pub uninterp spec fn glob_accepts(pattern: Seq<char>, text: Seq<char>) -> bool;

/// `glob::Pattern::new`, with its error dropped. It succeeds exactly on the
/// patterns that the crate holds valid, and the compiled pattern remembers
/// the text it was made from.
#[verifier::external_body]
pub(crate) fn compile(pattern: &str) -> (r: Option<glob::Pattern>)
    ensures
        r is Some == glob_valid(pattern@),
        r matches Some(compiled) ==> glob_source(compiled) == pattern@,
{
    glob::Pattern::new(pattern).ok()
}

/// `glob::Pattern::matches`: the verdict depends on the pattern's text and
/// on `text` alone.
#[verifier::external_body]
pub(crate) fn accepts(compiled: &glob::Pattern, text: &str) -> (r: bool)
    ensures
        r == glob_accepts(glob_source(*compiled), text@),
{
    compiled.matches(text)
}

/// The filter that an optional pattern text stands for: a pattern that does
/// not compile filters nothing.
pub open spec fn filter_of(pattern: Option<Seq<char>>) -> Option<Seq<char>> {
    match pattern {
        Some(p) => if glob_valid(p) {
            Some(p)
        } else {
            None
        },
        None => None,
    }
}

} // verus!
