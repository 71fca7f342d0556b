//! Matchers: compiled regular expressions, and what they capture in a line.
//!
//! Matching is done by the `regex` crate. What it finds is not defined here
//! but named ([`first_groups`]), so that the contracts of this library can say
//! exactly how they depend on it.

use crate::text::{optional_texts, present, texts};
use regex::Regex;
use vstd::prelude::*;
use vstd::string::*;

verus! {

/// `regex::Regex`, a compiled regular expression. Opaque to the verifier.
#[verifier::external_type_specification]
#[verifier::external_body]
pub struct ExRegex(regex::Regex);

/// `regex::Error`, the reason a pattern did not compile. Opaque to the
/// verifier.
#[verifier::external_type_specification]
#[verifier::external_body]
pub struct ExRegexError(regex::Error);

/// True of the characters that mean something in a regular expression.
pub open spec fn is_meta_character(c: char) -> bool {
    c == '\\' || c == '.' || c == '+' || c == '*' || c == '?' || c == '(' || c == ')' || c == '|'
        || c == '[' || c == ']' || c == '{' || c == '}' || c == '^' || c == '$' || c == '#' || c
        == '&' || c == '-' || c == '~'
}

/// `text` with a backslash before each of its meta characters, so that it
/// stands for itself in a regular expression.
pub open spec fn escaped(text: Seq<char>) -> Seq<char>
    decreases text.len(),
{
    if text.len() == 0 {
        seq![]
    } else if is_meta_character(text.last()) {
        escaped(text.drop_last()) + seq!['\\', text.last()]
    } else {
        escaped(text.drop_last()) + seq![text.last()]
    }
}

/// `regex::escape`. Assumed: the result is the argument with a backslash put
/// before each of the eighteen meta characters, and nothing else changed.
pub assume_specification[ regex::escape ](pattern: &str) -> (quoted: String)
    ensures
        quoted@ == escaped(pattern@),
;

/// `Regex::new`, which compiles a pattern or says why it cannot. Nothing is
/// assumed of the outcome: it depends on more than the pattern, since the
/// size that is held against the limit is counted in bytes of this machine.
pub assume_specification[ Regex::new ](re: &str) -> (compiled: Result<Regex, regex::Error>)
;

/// The `Display` of `regex::Error`: what the compiler has to say about a
/// pattern it refused. Nothing is assumed of the text.
#[verifier::external_body]
fn error_message(error: &regex::Error) -> (message: String) {
    error.to_string()
}

/// For each successive non-overlapping match of the regular expression
/// `pattern` in `haystack`, from left to right, the text of its capture group
/// 1, or `None` where the match has no such group or the group took no part.
pub uninterp spec fn first_groups(pattern: Seq<char>, haystack: Seq<char>) -> Seq<
    Option<Seq<char>>,
>;

/// Why a pattern could not be made into a matcher.
#[derive(Debug)]
pub struct PatternError {
    /// What the regular expression compiler reported.
    pub message: String,
}

/// A pattern together with its compiled form.
pub struct Matcher {
    pattern: String,
    regex: Regex,
}

impl View for Matcher {
    type V = Seq<char>;

    /// A matcher is known by the pattern it was compiled from.
    closed spec fn view(&self) -> Seq<char> {
        self.pattern@
    }
}

/// `Regex::captures_iter`, with `Captures::get` and `Match::as_str` on each
/// match. Assumed: what is captured depends on nothing but the pattern that
/// the expression was compiled from and the haystack; that dependence is
/// [`first_groups`]. Every `Matcher` is made by [`Matcher::new`], which
/// stores the pattern beside the expression compiled from it.
#[verifier::external_body]
fn capture_first_groups(matcher: &Matcher, haystack: &str) -> (groups: Vec<Option<String>>)
    ensures
        optional_texts(groups@) == first_groups(matcher@, haystack@),
{
    matcher.regex.captures_iter(haystack).map(|c| c.get(1).map(|m| m.as_str().to_owned())).collect()
}

/// Keeps the captures that are there, in order.
pub fn present_labels(groups: &Vec<Option<String>>) -> (labels: Vec<String>)
    ensures
        texts(labels@) == present(optional_texts(groups@)),
{
    let mut labels: Vec<String> = Vec::new();
    let mut i: usize = 0;
    while i < groups.len()
        invariant
            i <= groups.len(),
            texts(labels@) == present(optional_texts(groups@.take(i as int))),
        decreases groups.len() - i,
    {
        proof {
            let next = optional_texts(groups@.take(i + 1));
            assert(next.drop_last() =~= optional_texts(groups@.take(i as int)));
        }
        let ghost before = labels@;
        match &groups[i] {
            Some(label) => {
                labels.push(label.clone());
                assert(texts(labels@) =~= texts(before).push(label@));
            },
            None => {},
        }
        i += 1;
    }
    assert(groups@.take(i as int) =~= groups@);
    labels
}

impl Matcher {
    /// Compiles `pattern`. On success the matcher's view is the pattern.
    /// Whether a pattern compiles is for the regular expression compiler to
    /// say, and it need not say the same on every machine: it refuses what
    /// grows beyond a limit in bytes, and the bytes that a compiled pattern
    /// takes depend on the width of a pointer.
    pub fn new(pattern: &str) -> (made: Result<Matcher, PatternError>)
        ensures
            made matches Ok(matcher) ==> matcher@ == pattern@,
    {
        Matcher::from_compiled(pattern, Regex::new(pattern))
    }

    /// Makes the matcher of `pattern` out of what the compiler made of that
    /// pattern: a matcher exactly where it made an expression, and else what
    /// it had to say. It is not for other hands: a matcher must hold the
    /// expression that was compiled from its pattern.
    fn from_compiled(pattern: &str, compiled: Result<Regex, regex::Error>) -> (made: Result<
        Matcher,
        PatternError,
    >)
        ensures
            made is Ok <==> compiled is Ok,
            made matches Ok(matcher) ==> matcher@ == pattern@,
    {
        match compiled {
            Ok(regex) => Ok(Matcher { pattern: pattern.to_owned(), regex }),
            Err(error) => Err(PatternError { message: error_message(&error) }),
        }
    }

    /// The pattern this matcher was compiled from.
    pub fn pattern(&self) -> (pattern: &str)
        ensures
            pattern@ == self@,
    {
        self.pattern.as_str()
    }

    /// The labels that this matcher captures in `line`, from left to right.
    pub fn labels(&self, line: &str) -> (labels: Vec<String>)
        ensures
            texts(labels@) == present(first_groups(self@, line@)),
    {
        let groups = capture_first_groups(self, line);
        present_labels(&groups)
    }
}

} // verus!
