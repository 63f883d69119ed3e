//! Compiled regular expressions, as used by the text rules.

use vstd::prelude::*;

verus! {

/// The characters that carry a meaning of their own in a regular expression.
pub open spec fn is_regex_meta(c: char) -> bool {
    c == '\\' || c == '.' || c == '+' || c == '*' || c == '?' || c == '(' || c == ')' || c == '|'
        || c == '[' || c == ']' || c == '{' || c == '}' || c == '^' || c == '$' || c == '#'
        || c == '&' || c == '-' || c == '~'
}

/// One character written so that a regular expression reads it literally.
pub open spec fn escape_char(c: char) -> Seq<char> {
    if is_regex_meta(c) {
        seq!['\\', c]
    } else {
        seq![c]
    }
}

/// A text written so that a regular expression reads it literally.
pub open spec fn escaped(s: Seq<char>) -> Seq<char>
    decreases s.len(),
{
    if s.len() == 0 {
        seq![]
    } else {
        escaped(s.drop_last()) + escape_char(s.last())
    }
}

/// Whether `source` is a regular expression that the engine accepts.
pub uninterp spec fn pattern_compiles(source: Seq<char>) -> bool;

/// The leftmost-first match of the expression `source` in `text`, if any.
pub uninterp spec fn first_match(source: Seq<char>, text: Seq<char>) -> Option<Seq<char>>;

/// For each successive non-overlapping match of `source` in `text`, what its
/// first capture group matched, if that group took part.
pub uninterp spec fn first_groups_of(source: Seq<char>, text: Seq<char>) -> Seq<Option<Seq<char>>>;

pub open spec fn opt_view(o: Option<String>) -> Option<Seq<char>> {
    match o {
        Some(s) => Some(s@),
        None => None,
    }
}

/// Relies on regex::escape: a backslash goes before each meta character.
#[verifier::external_body]
pub(crate) fn escape(text: &str) -> (r: String)
    ensures
        r@ == escaped(text@),
{
    regex::escape(text)
}

#[verifier::external_type_specification]
#[verifier::external_body]
pub struct ExRegex(regex::Regex);

#[verifier::external_type_specification]
#[verifier::external_body]
pub struct ExRegexError(regex::Error);

/// A regular expression together with the source it was compiled from.
#[derive(Debug)]
pub struct Pattern {
    regex: regex::Regex,
    source: String,
}

impl View for Pattern {
    type V = Seq<char>;

    closed spec fn view(&self) -> Seq<char> {
        self.source@
    }
}

impl Pattern {
    /// Relies on regex::Regex::new: it compiles `source`, and fails exactly
    /// when the source is not a valid expression (or exceeds the size limit).
    #[verifier::external_body]
    pub(crate) fn compile_source(source: String) -> (r: Result<Pattern, regex::Error>)
        ensures
            r is Ok == pattern_compiles(source@),
            r matches Ok(p) ==> p@ == source@,
    {
        match regex::Regex::new(&source) {
            Ok(regex) => Ok(Pattern { regex, source }),
            Err(e) => Err(e),
        }
    }

    /// The text of the leftmost-first match in `text`, if any.
    pub fn find(&self, text: &str) -> (r: Option<String>)
        ensures
            opt_view(r) == first_match(self@, text@),
    {
        self.find_in(text)
    }

    /// The source of the expression.
    pub fn as_str(&self) -> (r: &str)
        ensures
            r@ == self@,
    {
        self.source.as_str()
    }

    /// Relies on regex::Regex::find: the text of the leftmost-first match.
    #[verifier::external_body]
    fn find_in(&self, text: &str) -> (r: Option<String>)
        ensures
            opt_view(r) == first_match(self@, text@),
    {
        match self.regex.find(text) {
            Some(m) => Some(m.as_str().to_string()),
            None => None,
        }
    }

    /// Relies on regex::Regex::captures_iter: for each successive match, the
    /// text of its first capture group, where that group took part.
    #[verifier::external_body]
    pub(crate) fn first_groups(&self, text: &str) -> (r: Vec<Option<String>>)
        ensures
            r@.map_values(|o: Option<String>| opt_view(o)) == first_groups_of(self@, text@),
    {
        self.regex.captures_iter(text).map(|c| c.get(1).map(|m| m.as_str().to_string())).collect()
    }
}

} // verus!
