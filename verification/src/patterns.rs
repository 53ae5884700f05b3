use vstd::prelude::*;
use crate::text::opt_texts;

verus! {

#[verifier::external_type_specification]
#[verifier::external_body]
pub struct ExRegex(regex::Regex);

/// Whether `regex::Regex::new` accepts `pattern` (it refuses patterns that do not parse and
/// patterns whose compiled form exceeds the default size limit).
pub uninterp spec fn regex_accepts(pattern: Seq<char>) -> bool;

/// What `regex::Regex::captures` finds for `pattern` in `haystack`: `None` where the pattern
/// does not match, else the groups of the leftmost-first match, group 0 (the whole match)
/// first, each the text it matched or `None` where it took no part in the match.
pub uninterp spec fn regex_first_captures(pattern: Seq<char>, haystack: Seq<char>) -> Option<
    Seq<Option<Seq<char>>>,
>;

/// What `regex::Regex::captures_iter` yields for `pattern` in `haystack`: for each successive
/// non-overlapping match, from left to right, the texts of its groups as in
/// `regex_first_captures`.
pub uninterp spec fn regex_all_captures(pattern: Seq<char>, haystack: Seq<char>) -> Seq<
    Seq<Option<Seq<char>>>,
>;

/// A compiled regular expression together with the pattern it was compiled from.
pub struct Pattern {
    regex: regex::Regex,
    source: Ghost<Seq<char>>,
}

impl Pattern {
    /// The pattern this expression was compiled from.
    pub closed spec fn source(&self) -> Seq<char> {
        self.source@
    }

    /// Compiles `pattern`; `None` where `regex` refuses it.
    pub fn new(pattern: &str) -> (r: Option<Pattern>)
        ensures
            r is Some <==> regex_accepts(pattern@),
            r matches Some(p) ==> p.source() == pattern@,
    {
        match compile(pattern) {
            Some(regex) => Some(Pattern { regex, source: Ghost(pattern@) }),
            None => None,
        }
    }
}

/// Calls `regex::Regex::new`; the result is `Some` exactly where the pattern is accepted.
#[verifier::external_body]
fn compile(pattern: &str) -> (r: Option<regex::Regex>)
    ensures
        r is Some <==> regex_accepts(pattern@),
{
    regex::Regex::new(pattern).ok()
}

/// Calls `regex::Regex::captures` on the expression held by `p`, which `Pattern::new`
/// compiled from `p.source()`; each group is read with `Captures::get`.
#[verifier::external_body]
pub(crate) fn first_captures(p: &Pattern, haystack: &str) -> (r: Option<Vec<Option<String>>>)
    ensures
        r matches Some(g) ==> regex_first_captures(p.source(), haystack@) == Some(opt_texts(g@)),
        r is None ==> regex_first_captures(p.source(), haystack@) is None,
{
    p.regex.captures(haystack).map(
        |c| (0..c.len()).map(|i| c.get(i).map(|m| m.as_str().to_string())).collect(),
    )
}

/// Calls `regex::Regex::captures_iter` on the expression held by `p`, reading each match as
/// `first_captures` does.
#[verifier::external_body]
pub(crate) fn all_captures(p: &Pattern, haystack: &str) -> (r: Vec<Vec<Option<String>>>)
    ensures
        r@.len() == regex_all_captures(p.source(), haystack@).len(),
        forall|i: int|
            0 <= i < r@.len() ==> opt_texts(#[trigger] r@[i]@) == regex_all_captures(
                p.source(),
                haystack@,
            )[i],
{
    p.regex.captures_iter(haystack).map(
        |c| (0..c.len()).map(|i| c.get(i).map(|m| m.as_str().to_string())).collect(),
    ).collect()
}

} // verus!
