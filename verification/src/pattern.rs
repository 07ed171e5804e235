//! Regular expressions, compiled and run by the `regex` crate.
use vstd::prelude::*;

verus! {

#[verifier::external_type_specification]
#[verifier::external_body]
pub struct ExRegex(regex::Regex);

/// Whether `regex::Regex::new` accepts `pattern` (it is well formed and
/// within the default size limit).
pub uninterp spec fn regex_compiles(pattern: Seq<char>) -> bool;

/// Whether the regular expression `pattern` matches somewhere in `haystack`
/// (`Regex::is_match`).
pub uninterp spec fn regex_is_match(pattern: Seq<char>, haystack: Seq<char>) -> bool;

/// `haystack` with every non-overlapping match of `pattern` replaced by
/// `replacement` (`Regex::replace_all`).
pub uninterp spec fn regex_replace_all(
    pattern: Seq<char>,
    haystack: Seq<char>,
    replacement: Seq<char>,
) -> Seq<char>;

/// The text of the whole match (capture group 0) of each successive
/// non-overlapping match of `pattern` in `haystack`, in order
/// (`Regex::captures_iter`, then `caps[0]`).
pub uninterp spec fn regex_whole_matches(pattern: Seq<char>, haystack: Seq<char>) -> Seq<
    Seq<char>,
>;

/// A compiled regular expression together with the text it was compiled
/// from. Only [`Pattern::compile`] builds one, so `re` is always the
/// compilation of `source`.
pub struct Pattern {
    source: String,
    re: regex::Regex,
}

impl View for Pattern {
    type V = Seq<char>;

    /// The text the expression was compiled from.
    closed spec fn view(&self) -> Seq<char> {
        self.source@
    }
}

impl Pattern {
    /// Calls `regex::Regex::new`. Claims: a pattern comes back exactly when
    /// the crate accepts `source` ([`regex_compiles`]), and it remembers
    /// `source` as its view.
    #[verifier::external_body]
    pub(crate) fn compile(source: String) -> (r: Option<Pattern>)
        ensures
            r is Some <==> regex_compiles(source@),
            r matches Some(p) ==> p@ == source@,
    {
        match regex::Regex::new(&source) {
            Ok(re) => Some(Pattern { source, re }),
            Err(_) => None,
        }
    }

    /// Calls `Regex::is_match`. Claims: the result is [`regex_is_match`] of
    /// the pattern's text and `haystack`.
    #[verifier::external_body]
    pub(crate) fn is_match(&self, haystack: &str) -> (b: bool)
        ensures
            b == regex_is_match(self@, haystack@),
    {
        self.re.is_match(haystack)
    }

    /// Calls `Regex::replace_all`. Claims: the result is
    /// [`regex_replace_all`] of the pattern's text, `haystack` and
    /// `replacement`.
    #[verifier::external_body]
    pub(crate) fn replace_all(&self, haystack: &str, replacement: &str) -> (r: String)
        ensures
            r@ == regex_replace_all(self@, haystack@, replacement@),
    {
        self.re.replace_all(haystack, replacement).into_owned()
    }

    /// Calls `Regex::captures_iter` and takes group 0 of each capture.
    /// Claims: the texts, in order, are [`regex_whole_matches`] of the
    /// pattern's text and `haystack`.
    #[verifier::external_body]
    pub(crate) fn whole_matches(&self, haystack: &str) -> (r: Vec<String>)
        ensures
            r@.map_values(|m: String| m@) == regex_whole_matches(self@, haystack@),
    {
        let mut out = Vec::new();
        for caps in self.re.captures_iter(haystack) {
            out.push(caps[0].to_string());
        }
        out
    }
}

} // verus!
