//! Shortening of source paths that lie under cargo's registry or its git
//! checkouts.

use vstd::prelude::*;

verus! {

/// The pattern of a path into cargo's registry sources or git checkouts, up
/// to and including the directory of the crate index or of the checkouts.
pub const REGISTRY_PATTERN: &'static str =
    ".*/\\.cargo(/registry/src/[^/]*/|/git/checkouts/)";

/// What stands in place of the part of a path that `REGISTRY_PATTERN` matches.
pub const CARGO_PREFIX: &'static str = "{cargo}/";

/// What `regex::Regex::new(pattern)` followed by
/// `Regex::replace(haystack, replacement)` gives: `None` where the pattern
/// does not compile, else the haystack with its leftmost-first match
/// replaced, or the haystack itself where nothing matches.
pub uninterp spec fn regex_replaced(
    pattern: Seq<char>,
    haystack: Seq<char>,
    replacement: Seq<char>,
) -> Option<Seq<char>>;

/// Compiles `pattern` with `regex::Regex::new` and, where that succeeds,
/// calls `regex::Regex::replace` on `haystack` with `replacement`.
/// Not proved: that the result is the one that `regex_replaced` names. Both
/// outside functions depend on their arguments alone, and neither panics.
#[verifier::external_body]
fn regex_replace(pattern: &str, haystack: &str, replacement: &str) -> (r: Option<String>)
    ensures
        text_of(r) == regex_replaced(pattern@, haystack@, replacement@),
{
    match regex::Regex::new(pattern) {
        Ok(re) => Some(re.replace(haystack, replacement).into_owned()),
        Err(_) => None,
    }
}

/// What a string that may be absent holds.
pub open spec fn text_of(s: Option<String>) -> Option<Seq<char>> {
    match s {
        Some(s) => Some(s@),
        None => None,
    }
}

/// The path to show for `path`, given what replacing the registry pattern in
/// it gave: the replaced path, or `path` itself where there is none.
pub open spec fn shortened(path: Seq<char>, replaced: Option<Seq<char>>) -> Seq<char> {
    match replaced {
        Some(t) => t,
        None => path,
    }
}

/// The path to show for `path`: with the part up to cargo's registry
/// sources or git checkouts replaced by `{cargo}/`.
pub open spec fn registry_truncated(path: Seq<char>) -> Seq<char> {
    shortened(path, regex_replaced(REGISTRY_PATTERN@, path, CARGO_PREFIX@))
}

/// Chooses between a path and its replacement.
pub fn shorten(path: String, replaced: Option<String>) -> (r: String)
    ensures
        r@ == shortened(path@, text_of(replaced)),
{
    match replaced {
        Some(t) => t,
        None => path,
    }
}

/// Rewrites a path into cargo's registry or git checkouts so that it starts
/// with `{cargo}/`; any other path is returned as it is.
pub fn truncate_registry_path(path: String) -> (r: String)
    ensures
        r@ == registry_truncated(path@),
{
    let replaced = regex_replace(REGISTRY_PATTERN, path.as_str(), CARGO_PREFIX);
    shorten(path, replaced)
}

} // verus!
