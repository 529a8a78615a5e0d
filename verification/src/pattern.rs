//! Title patterns: compiled regular expressions (the `regex` crate).

use vstd::prelude::*;

verus! {

#[verifier::external_type_specification]
#[verifier::external_body]
pub struct ExRegex(regex::Regex);

/// Whether `regex::Regex::new` accepts the pattern `p` (valid syntax and
/// within the default size limit).
pub uninterp spec fn regex_valid(p: Seq<char>) -> bool;

/// Whether the regex compiled from `p` matches anywhere in `text`
/// (`regex::Regex::is_match`).
pub uninterp spec fn regex_matches(p: Seq<char>, text: Seq<char>) -> bool;

/// A compiled title pattern together with the text it was compiled from.
pub struct TitlePattern {
    source: String,
    compiled: regex::Regex,
}

impl TitlePattern {
    /// The pattern text this value was compiled from.
    pub closed spec fn source(&self) -> Seq<char> {
        self.source@
    }

    /// Compiles `p` with `regex::Regex::new`. The contract claims that the
    /// call succeeds exactly when `regex_valid(p)`; the error text is the
    /// crate's own description and is left unsaid.
    #[verifier::external_body]
    pub(crate) fn compile(p: &str) -> (r: Result<TitlePattern, String>)
        ensures
            r is Ok <==> regex_valid(p@),
            r matches Ok(t) ==> t.source() == p@,
    {
        regex::Regex::new(p)
            .map(|re| TitlePattern { source: p.to_string(), compiled: re })
            .map_err(|e| e.to_string())
    }

    /// `regex::Regex::is_match`: the contract claims the answer is
    /// `regex_matches` of the source pattern and the haystack.
    #[verifier::external_body]
    pub(crate) fn is_match(&self, text: &str) -> (b: bool)
        ensures
            b == regex_matches(self.source(), text@),
    {
        self.compiled.is_match(text)
    }
}

} // verus!
