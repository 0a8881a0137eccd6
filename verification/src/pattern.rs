//! Regular expressions over byte strings, as filters use them.

use vstd::prelude::*;
use vstd::string::*;

verus! {

#[verifier::external_type_specification]
#[verifier::external_body]
pub struct ExRegex(regex::bytes::Regex);

#[verifier::external_type_specification]
#[verifier::external_body]
pub struct ExRegexError(regex::Error);

/// Whether `regex::bytes::Regex::new` accepts the expression.
pub uninterp spec fn regex_accepts(expr: Seq<char>) -> bool;

/// Whether the regular expression compiled from `expr` has a match anywhere
/// in `haystack`, as `regex::bytes::Regex::is_match` reports it.
pub uninterp spec fn regex_finds(expr: Seq<char>, haystack: Seq<u8>) -> bool;

/// A compiled regular expression together with the text it was compiled
/// from. Only [`compile`] makes one, so the two always belong together.
pub struct Compiled {
    expr: String,
    regex: regex::bytes::Regex,
}

impl Compiled {
    /// The expression that was compiled.
    pub closed spec fn expr(&self) -> Seq<char> {
        self.expr@
    }
}

/// Calls `regex::bytes::Regex::new`. Trusted: the call succeeds exactly on
/// the expressions that the regex crate accepts, and the value returned
/// remembers the expression it was given.
#[verifier::external_body]
fn compile(expr: String) -> (r: Result<Compiled, regex::Error>)
    ensures
        r is Ok <==> regex_accepts(expr@),
        r matches Ok(c) ==> c.expr() == expr@,
{
    match regex::bytes::Regex::new(&expr) {
        Ok(regex) => Ok(Compiled { expr, regex }),
        Err(e) => Err(e),
    }
}

/// Calls `regex::bytes::Regex::is_match`. Trusted: the answer is the regex
/// crate's answer for the compiled expression and the haystack, a search
/// for a match anywhere in the haystack.
#[verifier::external_body]
fn search(c: &Compiled, haystack: &[u8]) -> (found: bool)
    ensures
        found == regex_finds(c.expr(), haystack@),
{
    c.regex.is_match(haystack)
}

/// The expression that matches exactly the values which `source` matches
/// from their first byte to their last.
pub open spec fn anchored(source: Seq<char>) -> Seq<char> {
    "\\A(?:"@ + source + ")\\z"@
}

/// Why a pattern was refused.
#[derive(Debug, Clone, Copy, PartialEq, Eq, Structural)]
pub enum PatternError {
    /// The regex crate does not accept the expression.
    Invalid,
}

/// A filter pattern: a regular expression that a property value has to
/// match as a whole.
pub struct Pattern {
    source: String,
    compiled: Compiled,
}

impl Pattern {
    /// The pattern as the user wrote it.
    pub closed spec fn source(&self) -> Seq<char> {
        self.source@
    }

    /// The compiled expression is the user's pattern, anchored at both ends.
    #[verifier::type_invariant]
    spec fn wf(&self) -> bool {
        self.compiled.expr() == anchored(self.source@)
    }

    /// Whether the whole of `value` matches the pattern.
    pub open spec fn matches(&self, value: Seq<u8>) -> bool {
        regex_finds(anchored(self.source()), value)
    }

    /// Compiles `source`. Fails exactly where the regex crate refuses the
    /// anchored expression.
    pub fn new(source: &str) -> (r: Result<Pattern, PatternError>)
        ensures
            r is Ok <==> regex_accepts(anchored(source@)),
            r matches Ok(p) ==> p.source() == source@,
            r matches Err(e) ==> e == PatternError::Invalid,
    {
        let mut expr = String::from_str("\\A(?:");
        expr.append(source);
        expr.append(")\\z");
        match compile(expr) {
            Ok(compiled) => Ok(Pattern { source: String::from_str(source), compiled }),
            Err(_) => Err(PatternError::Invalid),
        }
    }

    /// The pattern as the user wrote it.
    pub fn as_str(&self) -> (s: &str)
        ensures
            s@ == self.source(),
    {
        self.source.as_str()
    }

    /// Tests whether the whole of `value` matches.
    pub fn is_full_match(&self, value: &[u8]) -> (b: bool)
        ensures
            b == self.matches(value@),
    {
        proof {
            use_type_invariant(self);
        }
        search(&self.compiled, value)
    }
}

} // verus!
