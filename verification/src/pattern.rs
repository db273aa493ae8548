//! Compiled, fallible regular-expression matchers with a case-sensitivity
//! flag, and the record kept for a pattern that failed to compile.
//!
//! The regular-expression engine itself is an outside capability: its
//! behaviour is named, not restated, and everything built on top of it is
//! proved against those names.

use vstd::prelude::*;

verus! {

#[verifier::external_type_specification]
#[verifier::external_body]
pub struct ExRegex(regex::Regex);

/// Whether `pattern`, compiled with the given case sensitivity, matches
/// anywhere in `text`. Names the result of `regex::Regex::is_match`,
/// which depends on the pattern, the case flag and the text alone.
pub uninterp spec fn regex_match(pattern: Seq<char>, case_sensitive: bool, text: Seq<char>) -> bool;

/// Whether `pattern` compiles as a regular expression under the given
/// case sensitivity. Names the success of `regex::RegexBuilder::build`,
/// which depends on the pattern and the builder's flags alone.
pub uninterp spec fn regex_valid(pattern: Seq<char>, case_sensitive: bool) -> bool;

/// A compiled regular expression together with the pattern text and the
/// case-sensitivity flag it was built from. Immutable after construction;
/// the compiled matcher can only be obtained through [`CompiledRegex::try_new`],
/// which keeps the three fields consistent.
#[derive(Debug)]
pub struct CompiledRegex {
    pub pattern: String,
    pub case_sensitive: bool,
    regex: regex::Regex,
}

/// Specification-level content of a compiled pattern rule.
#[verifier::ext_equal]
pub ghost struct RegexModel {
    pub pattern: Seq<char>,
    pub case_sensitive: bool,
}

impl View for CompiledRegex {
    type V = RegexModel;

    closed spec fn view(&self) -> RegexModel {
        RegexModel { pattern: self.pattern@, case_sensitive: self.case_sensitive }
    }
}

/// Whether a rule's pattern matches anywhere in `text`.
pub open spec fn rule_matches(m: RegexModel, text: Seq<char>) -> bool {
    regex_match(m.pattern, m.case_sensitive, text)
}

/// Relies on `regex::RegexBuilder::new(pattern).case_insensitive(!case_sensitive).build()`:
/// compilation succeeds exactly when the pattern is valid, and the compiled
/// matcher is a function of the pattern and the case flag. On failure the
/// compiler's error text is returned; nothing is promised of that text.
#[verifier::external_body]
fn build_regex(pattern: &str, case_sensitive: bool) -> (r: Result<CompiledRegex, String>)
    ensures
        r is Ok <==> regex_valid(pattern@, case_sensitive),
        r matches Ok(c) ==> c@ == (RegexModel { pattern: pattern@, case_sensitive }),
{
    match regex::RegexBuilder::new(pattern).case_insensitive(!case_sensitive).build() {
        Ok(regex) => Ok(CompiledRegex {
            pattern: pattern.to_string(),
            case_sensitive,
            regex,
        }),
        Err(error) => Err(error.to_string()),
    }
}

impl CompiledRegex {
    /// Compiles `pattern`; a failure is surfaced as the compiler's error text.
    pub fn try_new(pattern: &str, case_sensitive: bool) -> (r: Result<CompiledRegex, String>)
        ensures
            r is Ok <==> regex_valid(pattern@, case_sensitive),
            r matches Ok(c) ==> c@ == (RegexModel { pattern: pattern@, case_sensitive }),
    {
        build_regex(pattern, case_sensitive)
    }

    /// Best-effort companion constructor: a compile error is silently
    /// discarded and `None` is returned.
    pub fn new(pattern: &str, case_sensitive: bool) -> (r: Option<CompiledRegex>)
        ensures
            r is Some <==> regex_valid(pattern@, case_sensitive),
            r matches Some(c) ==> c@ == (RegexModel { pattern: pattern@, case_sensitive }),
    {
        match Self::try_new(pattern, case_sensitive) {
            Ok(c) => Some(c),
            Err(_) => None,
        }
    }

    /// Relies on `regex::Regex::is_match`: true exactly when the pattern
    /// matches anywhere in `input` (unanchored substring search).
    #[verifier::external_body]
    pub fn is_match(&self, input: &str) -> (r: bool)
        ensures
            r == regex_match(self@.pattern, self@.case_sensitive, input@),
            r == rule_matches(self@, input@),
    {
        self.regex.is_match(input)
    }
}

/// Record of a configured pattern that failed to compile: the pattern, the
/// rule list it came from, and the compiler's error text.
pub struct InvalidRegexPattern {
    pub pattern: String,
    pub rule_type: String,
    pub error: String,
}

/// Specification-level content of an invalid-pattern record.
#[verifier::ext_equal]
pub ghost struct InvalidPatternModel {
    pub pattern: Seq<char>,
    pub rule_type: Seq<char>,
    pub error: Seq<char>,
}

impl View for InvalidRegexPattern {
    type V = InvalidPatternModel;

    open spec fn view(&self) -> InvalidPatternModel {
        InvalidPatternModel {
            pattern: self.pattern@,
            rule_type: self.rule_type@,
            error: self.error@,
        }
    }
}

} // verus!
