use vstd::prelude::*;
use vstd::string::*;

use crate::line::Line;

verus! {

/// `regex::Regex`, carried opaquely inside [`Pattern`].
#[verifier::external_type_specification]
#[verifier::external_body]
pub struct ExRegex(regex::Regex);

/// `regex::Error`, the failure of `regex::Regex::new`.
#[verifier::external_type_specification]
#[verifier::external_body]
pub struct ExRegexError(regex::Error);

/// Whether the regex crate accepts `pattern` (syntax and default size limits).
pub uninterp spec fn regex_compiles(pattern: Seq<char>) -> bool;

/// Whether the regex `pattern` matches somewhere in `text`.
pub uninterp spec fn regex_is_match(pattern: Seq<char>, text: Seq<char>) -> bool;

/// For the leftmost-first match of `pattern` in `text`, if there is one, the
/// texts of capture groups 1 and 2 (each absent where the group did not
/// take part in the match or does not exist).
pub uninterp spec fn regex_groups(pattern: Seq<char>, text: Seq<char>) -> Option<
    (Option<Seq<char>>, Option<Seq<char>>),
>;

/// `text` with every non-overlapping match of `pattern` replaced by the
/// literal `replacement`.
pub uninterp spec fn regex_replaced(pattern: Seq<char>, text: Seq<char>, replacement: Seq<char>) -> Seq<char>;

/// The characters with the Unicode `White_Space` property.
pub open spec fn is_white_space(c: char) -> bool {
    ('\u{9}' <= c && c <= '\u{d}') || c == ' ' || c == '\u{85}' || c == '\u{a0}' || c
        == '\u{1680}' || ('\u{2000}' <= c && c <= '\u{200a}') || c == '\u{2028}' || c
        == '\u{2029}' || c == '\u{202f}' || c == '\u{205f}' || c == '\u{3000}'
}

/// `text` without its leading white space.
pub open spec fn trimmed_start(text: Seq<char>) -> Seq<char>
    decreases text.len(),
{
    if text.len() > 0 && is_white_space(text[0]) {
        trimmed_start(text.drop_first())
    } else {
        text
    }
}

/// `text` without its trailing white space.
pub open spec fn trimmed_end(text: Seq<char>) -> Seq<char>
    decreases text.len(),
{
    if text.len() > 0 && is_white_space(text.last()) {
        trimmed_end(text.drop_last())
    } else {
        text
    }
}

/// `text` without its leading and trailing white space.
pub open spec fn trimmed(text: Seq<char>) -> Seq<char> {
    trimmed_end(trimmed_start(text))
}

pub open spec fn opt_view(o: Option<String>) -> Option<Seq<char>> {
    match o {
        Some(s) => Some(s@),
        None => None,
    }
}

pub open spec fn groups_view(g: Option<(Option<String>, Option<String>)>) -> Option<
    (Option<Seq<char>>, Option<Seq<char>>),
> {
    match g {
        Some((a, b)) => Some((opt_view(a), opt_view(b))),
        None => None,
    }
}

/// A pattern that was rejected by the regex compiler.
#[derive(Clone, Debug)]
pub struct PatternError {
    pub pattern: String,
}

/// A compiled regular expression together with the text it was compiled
/// from. The fields are private: `compiled` is always the compilation of
/// `source`.
pub struct Pattern {
    source: String,
    compiled: regex::Regex,
}

/// Relies on `regex::Regex::new`: it fails exactly on the patterns that the
/// crate rejects, which depends on the pattern alone.
#[verifier::external_body]
fn compile(pattern: &str) -> (r: Result<regex::Regex, regex::Error>)
    ensures
        r is Ok <==> regex_compiles(pattern@),
{
    regex::Regex::new(pattern)
}

/// Relies on `regex::Regex::is_match`.
#[verifier::external_body]
fn find_in(p: &Pattern, text: &str) -> (r: bool)
    ensures
        r == regex_is_match(p.source@, text@),
{
    p.compiled.is_match(text)
}

/// Relies on `regex::Regex::captures` and `regex::Captures::get`: the text
/// of groups 1 and 2 of the first match.
#[verifier::external_body]
fn capture_pair(p: &Pattern, text: &str) -> (r: Option<(Option<String>, Option<String>)>)
    ensures
        groups_view(r) == regex_groups(p.source@, text@),
{
    p.compiled.captures(text).map(
        |c| (c.get(1).map(|m| m.as_str().to_string()), c.get(2).map(|m| m.as_str().to_string())),
    )
}

/// Relies on `regex::Regex::replace_all` with a literal replacement.
#[verifier::external_body]
fn replace_every(p: &Pattern, text: &str, replacement: &str) -> (r: String)
    ensures
        r@ == regex_replaced(p.source@, text@, replacement@),
{
    p.compiled.replace_all(text, regex::NoExpand(replacement)).into_owned()
}

/// Relies on `str::trim`: it removes leading and trailing characters with
/// the Unicode `White_Space` property.
#[verifier::external_body]
fn trim_text(text: &str) -> (r: String)
    ensures
        r@ == trimmed(text@),
{
    text.trim().to_string()
}

impl Pattern {
    /// The text the pattern was compiled from.
    pub closed spec fn spec_source(&self) -> Seq<char> {
        self.source@
    }

    pub fn new(source: String) -> (r: Result<Pattern, PatternError>)
        ensures
            r is Ok <==> regex_compiles(source@),
            r matches Ok(p) ==> p.spec_source() == source@,
            r matches Err(e) ==> e.pattern@ == source@,
    {
        match compile(source.as_str()) {
            Ok(compiled) => Ok(Pattern { source, compiled }),
            Err(_) => Err(PatternError { pattern: source }),
        }
    }

    pub fn source(&self) -> (r: &String)
        ensures
            r@ == self.spec_source(),
    {
        &self.source
    }

    pub fn is_match(&self, text: &str) -> (r: bool)
        ensures
            r == regex_is_match(self.spec_source(), text@),
    {
        find_in(self, text)
    }

    pub fn groups(&self, text: &str) -> (r: Option<(Option<String>, Option<String>)>)
        ensures
            groups_view(r) == regex_groups(self.spec_source(), text@),
    {
        capture_pair(self, text)
    }

    pub fn replace_all(&self, text: &str, replacement: &str) -> (r: String)
        ensures
            r@ == regex_replaced(self.spec_source(), text@, replacement@),
    {
        replace_every(self, text, replacement)
    }
}

pub fn trim(text: &str) -> (r: String)
    ensures
        r@ == trimmed(text@),
{
    trim_text(text)
}

/// Whether `l` is the classification of a raw line whose prefix-pattern
/// groups are `groups`, whose trimmed text is `trimmed_text` and whose
/// error-heuristic verdict is `error_like`: a match with both groups gives a
/// prefixed line, anything else the trimmed text without prefix and without
/// the error flag.
pub open spec fn classifies(
    l: Line,
    groups: Option<(Option<Seq<char>>, Option<Seq<char>>)>,
    trimmed_text: Seq<char>,
    error_like: bool,
) -> bool {
    match groups {
        Some((Some(p), Some(m))) => l.prefix matches Some(lp) && lp@ == p && l.message@ == m
            && l.has_error == error_like,
        _ => l.prefix is None && l.message@ == trimmed_text && !l.has_error,
    }
}

/// Builds the line for the outcome of the prefix pattern on a raw line.
pub fn classify(
    groups: Option<(Option<String>, Option<String>)>,
    trimmed_text: String,
    error_like: bool,
) -> (r: Line)
    ensures
        classifies(r, groups_view(groups), trimmed_text@, error_like),
{
    match groups {
        Some((Some(p), Some(m))) => Line::with_prefix(p, m, error_like),
        _ => Line::without_prefix(trimmed_text),
    }
}

} // verus!
