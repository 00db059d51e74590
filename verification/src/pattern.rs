//! Regular expressions, compiled and matched by the `regex` crate.
use vstd::prelude::*;

verus! {

#[verifier::external_type_specification]
#[verifier::external_body]
pub struct ExRegex(regex::Regex);

/// Whether `regex::RegexBuilder::new(pattern).case_insensitive(ci).build()`
/// succeeds.
pub uninterp spec fn regex_builds(pattern: Seq<char>, case_insensitive: bool) -> bool;

/// What `regex::Regex::is_match` gives for `line` on the regex built from
/// `pattern` with the given case sensitivity.
pub uninterp spec fn regex_matches(
    pattern: Seq<char>,
    case_insensitive: bool,
    line: Seq<char>,
) -> bool;

/// A compiled regular expression, with the pattern and case sensitivity it
/// was built from.
pub struct CompiledRegex {
    re: regex::Regex,
    pattern: String,
    case_insensitive: bool,
}

impl CompiledRegex {
    pub closed spec fn pattern(&self) -> Seq<char> {
        self.pattern@
    }

    pub closed spec fn case_insensitive(&self) -> bool {
        self.case_insensitive
    }

    /// Calls `regex::RegexBuilder::new(pattern).case_insensitive(..).build()`:
    /// `Some` exactly where `regex_builds` holds, and then a regex that keeps
    /// the pattern and the case sensitivity it was built from.
    #[verifier::external_body]
    pub(crate) fn build(pattern: &str, case_insensitive: bool) -> (r: Option<CompiledRegex>)
        ensures
            r is Some <==> regex_builds(pattern@, case_insensitive),
            r matches Some(c) ==> c.pattern() == pattern@ && c.case_insensitive()
                == case_insensitive,
    {
        let re = regex::RegexBuilder::new(pattern).case_insensitive(case_insensitive).build().ok()?;
        Some(CompiledRegex { re, pattern: pattern.to_string(), case_insensitive })
    }

    /// Calls `regex::Regex::is_match`; the result is `regex_matches` of the
    /// pattern, the case sensitivity and the line.
    #[verifier::external_body]
    pub(crate) fn is_match(&self, line: &str) -> (r: bool)
        ensures
            r == regex_matches(self.pattern(), self.case_insensitive(), line@),
    {
        self.re.is_match(line)
    }
}

} // verus!
