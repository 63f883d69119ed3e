//! Compiling lists of literals into one regular expression each.

use vstd::prelude::*;
use crate::pattern::{escape, escaped, pattern_compiles, Pattern};

verus! {

/// The views of a list of strings.
pub open spec fn strings_view(v: Seq<String>) -> Seq<Seq<char>> {
    v.map_values(|s: String| s@)
}

/// The escaped literals, separated by `|`.
pub open spec fn alternation(words: Seq<Seq<char>>) -> Seq<char>
    decreases words.len(),
{
    if words.len() == 0 {
        seq![]
    } else if words.len() == 1 {
        escaped(words[0])
    } else {
        alternation(words.drop_last()) + seq!['|'] + escaped(words.last())
    }
}

/// The expression that matches any of `words` between word boundaries.
pub open spec fn word_source(words: Seq<Seq<char>>) -> Seq<char> {
    seq!['\\', 'b', '('] + alternation(words) + seq![')', '\\', 'b']
}

/// Whether `part` stands somewhere in `whole`.
pub open spec fn occurs_in(part: Seq<char>, whole: Seq<char>) -> bool {
    exists|k: int| 0 <= k && k + part.len() <= whole.len() && #[trigger] whole.subrange(k, k + part.len()) == part
}

proof fn lemma_occurs_in_concat(part: Seq<char>, a: Seq<char>, b: Seq<char>)
    ensures
        occurs_in(part, a) ==> occurs_in(part, a + b),
        occurs_in(part, b) ==> occurs_in(part, a + b),
{
    if occurs_in(part, a) {
        let k = choose|k: int| 0 <= k && k + part.len() <= a.len() && #[trigger] a.subrange(k, k + part.len()) == part;
        assert((a + b).subrange(k, k + part.len()) =~= a.subrange(k, k + part.len()));
    }
    if occurs_in(part, b) {
        let k = choose|k: int| 0 <= k && k + part.len() <= b.len() && #[trigger] b.subrange(k, k + part.len()) == part;
        assert((a + b).subrange(a.len() + k, a.len() + k + part.len()) =~= b.subrange(k, k + part.len()));
    }
}

/// Each word of a list stands, escaped, in the source compiled from the
/// list, for either kind of rule.
pub proof fn lemma_each_word_in_source(words: Seq<Seq<char>>, i: int)
    requires
        0 <= i < words.len(),
    ensures
        occurs_in(escaped(words[i]), alternation(words)),
        occurs_in(escaped(words[i]), word_source(words)),
    decreases words.len(),
{
    let e = escaped(words[i]);
    if words.len() == 1 {
        assert(alternation(words) == e);
        assert(alternation(words).subrange(0int, 0int + e.len()) =~= e);
    } else {
        let p = words.drop_last();
        assert(alternation(words) == alternation(p) + seq!['|'] + escaped(words.last()));
        if i < words.len() - 1 {
            assert(p[i] == words[i]);
            lemma_each_word_in_source(p, i);
            lemma_occurs_in_concat(e, alternation(p), seq!['|']);
            lemma_occurs_in_concat(e, alternation(p) + seq!['|'], escaped(words.last()));
        } else {
            assert(escaped(words.last()).subrange(0int, 0int + e.len()) =~= e);
            lemma_occurs_in_concat(e, alternation(p) + seq!['|'], escaped(words.last()));
        }
    }
    lemma_occurs_in_concat(e, seq!['\\', 'b', '('], alternation(words));
    lemma_occurs_in_concat(e, seq!['\\', 'b', '('] + alternation(words), seq![')', '\\', 'b']);
}

/// A list of literals whose expression the engine refused.
#[derive(Debug)]
pub struct PatternError {
    /// The source of the refused expression.
    pub source: String,
}

/// The source of an expression that matches any of `words` literally.
pub fn regex_pattern(words: &Vec<String>) -> (r: String)
    ensures
        r@ == alternation(strings_view(words@)),
{
    let ghost ws = strings_view(words@);
    let mut out = String::new();
    assert(ws.take(0) =~= Seq::<Seq<char>>::empty());
    for i in 0..words.len()
        invariant
            ws == strings_view(words@),
            out@ == alternation(ws.take(i as int)),
    {
        let piece = escape(words[i].as_str());
        if i > 0 {
            out.append("|");
            proof {
                reveal_strlit("|");
            }
        }
        out.append(piece.as_str());
        assert(ws.take(i + 1).drop_last() =~= ws.take(i as int));
        if i == 0 {
            assert(ws.take(1) =~= seq![ws[0]]);
        }
        assert(out@ =~= alternation(ws.take(i + 1)));
    }
    assert(ws.take(words.len() as int) =~= ws);
    out
}

/// Compiles a regular expression.
pub fn compile_regex(source: String) -> (r: Result<Pattern, PatternError>)
    ensures
        r is Ok == pattern_compiles(source@),
        r matches Ok(p) ==> p@ == source@,
        r matches Err(e) ==> e.source@ == source@,
{
    let kept = source.clone();
    match Pattern::compile_source(source) {
        Ok(p) => Ok(p),
        Err(_) => Err(PatternError { source: kept }),
    }
}

/// Compiles `words` into one expression that matches any of them where it
/// stands between word boundaries.
pub fn word_regex(words: &Vec<String>) -> (r: Result<Pattern, PatternError>)
    ensures
        r is Ok == pattern_compiles(word_source(strings_view(words@))),
        r matches Ok(p) ==> p@ == word_source(strings_view(words@)),
{
    let mut source = String::new();
    source.append("\\b(");
    let inner = regex_pattern(words);
    source.append(inner.as_str());
    source.append(")\\b");
    proof {
        reveal_strlit("\\b(");
        reveal_strlit(")\\b");
    }
    assert(source@ =~= word_source(strings_view(words@)));
    compile_regex(source)
}

/// Compiles `words` into one expression that matches any of them anywhere.
pub fn substring_regex(words: &Vec<String>) -> (r: Result<Pattern, PatternError>)
    ensures
        r is Ok == pattern_compiles(alternation(strings_view(words@))),
        r matches Ok(p) ==> p@ == alternation(strings_view(words@)),
{
    compile_regex(regex_pattern(words))
}

} // verus!
