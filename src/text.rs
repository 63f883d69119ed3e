//! Character-level checks on text: membership, domains and combining marks.

use vstd::prelude::*;
use crate::compile::strings_view;

verus! {

/// The characters of `s`, in order.
pub fn chars_of(s: &str) -> (r: Vec<char>)
    ensures
        r@ == s@,
{
    let mut out: Vec<char> = Vec::new();
    for c in it: s.chars()
        invariant
            out@ == it.seq().take(it.index() as int),
    {
        out.push(c);
    }
    out
}

/// Whether `s` is one of `list`.
pub fn string_in(list: &Vec<String>, s: &String) -> (r: bool)
    ensures
        r == strings_view(list@).contains(s@),
{
    for i in 0..list.len()
        invariant
            forall|j: int| 0 <= j < i ==> list@[j]@ != s@,
    {
        if list[i] == *s {
            assert(strings_view(list@)[i as int] == s@);
            return true;
        }
    }
    assert forall|j: int| 0 <= j < strings_view(list@).len() implies strings_view(list@)[j] != s@ by {
        assert(strings_view(list@)[j] == list@[j]@);
    }
    false
}

/// Whether `c` is a combining mark: one of the blocks of combining
/// diacritical marks.
pub open spec fn is_combining(c: char) -> bool {
    let u = c as u32;
    (0x300 <= u <= 0x36F) || (0x1AB0 <= u <= 0x1AFF) || (0x1DC0 <= u <= 0x1DFF) || (0x20D0 <= u
        <= 0x20FF) || (0xFE20 <= u <= 0xFE2F)
}

pub fn char_is_combining(c: char) -> (r: bool)
    ensures
        r == is_combining(c),
{
    let u = c as u32;
    (0x300 <= u && u <= 0x36F) || (0x1AB0 <= u && u <= 0x1AFF) || (0x1DC0 <= u && u <= 0x1DFF)
        || (0x20D0 <= u && u <= 0x20FF) || (0xFE20 <= u && u <= 0xFE2F)
}

/// How many combining marks end `t`.
pub open spec fn trailing_marks(t: Seq<char>) -> nat
    decreases t.len(),
{
    if t.len() == 0 {
        0
    } else if is_combining(t.last()) {
        trailing_marks(t.drop_last()) + 1
    } else {
        0
    }
}

/// How many combining marks `t` holds.
pub open spec fn count_marks(t: Seq<char>) -> nat
    decreases t.len(),
{
    if t.len() == 0 {
        0
    } else {
        count_marks(t.drop_last()) + if is_combining(t.last()) {
            1nat
        } else {
            0nat
        }
    }
}

/// The most combining marks that one character of the text carries.
pub const MAX_STACKED_MARKS: usize = 4;

/// The shortest text whose share of combining marks is checked.
pub const MIN_DENSITY_LENGTH: usize = 8;

/// Whether some character of `t` carries more than the allowed number of
/// combining marks in a row.
pub open spec fn has_stacked_marks(t: Seq<char>) -> bool
    decreases t.len(),
{
    if t.len() == 0 {
        false
    } else {
        has_stacked_marks(t.drop_last()) || trailing_marks(t) > MAX_STACKED_MARKS
    }
}

/// Whether `t` is corrupted text: a character carries more than four
/// combining marks, or, from eight characters on, more than a quarter of
/// them are combining marks.
pub open spec fn is_zalgo(t: Seq<char>) -> bool {
    has_stacked_marks(t) || (t.len() >= MIN_DENSITY_LENGTH && 4 * count_marks(t) > t.len())
}

proof fn lemma_marks_bounded(t: Seq<char>)
    ensures
        count_marks(t) <= t.len(),
        trailing_marks(t) <= t.len(),
    decreases t.len(),
{
    if t.len() > 0 {
        lemma_marks_bounded(t.drop_last());
    }
}

/// Whether `text` is corrupted text.
pub fn zalgo(text: &str) -> (r: bool)
    ensures
        r == is_zalgo(text@),
{
    let t = chars_of(text);
    let mut run: usize = 0;
    let mut marks: usize = 0;
    let mut stacked = false;
    assert(t@.take(0) =~= Seq::<char>::empty());
    for i in 0..t.len()
        invariant
            run == trailing_marks(t@.take(i as int)),
            marks == count_marks(t@.take(i as int)),
            stacked == has_stacked_marks(t@.take(i as int)),
    {
        assert(t@.take(i + 1).drop_last() =~= t@.take(i as int));
        proof {
            lemma_marks_bounded(t@.take(i as int));
        }
        if char_is_combining(t[i]) {
            run = run + 1;
            marks = marks + 1;
        } else {
            run = 0;
        }
        if run > MAX_STACKED_MARKS {
            stacked = true;
        }
    }
    assert(t@.take(t.len() as int) =~= t@);
    proof {
        lemma_marks_bounded(t@);
    }
    stacked || (t.len() >= MIN_DENSITY_LENGTH && 4 * (marks as u128) > t.len() as u128)
}

/// Text of ASCII characters alone is never corrupted text.
pub proof fn lemma_ascii_is_never_zalgo(t: Seq<char>)
    requires
        forall|i: int| 0 <= i < t.len() ==> (#[trigger] t[i] as u32) < 128,
    ensures
        !is_zalgo(t),
        count_marks(t) == 0,
    decreases t.len(),
{
    if t.len() > 0 {
        let p = t.drop_last();
        assert forall|i: int| 0 <= i < p.len() implies (#[trigger] p[i] as u32) < 128 by {
            assert(p[i] == t[i]);
        }
        lemma_ascii_is_never_zalgo(p);
        assert((t[t.len() - 1] as u32) < 128);
    }
}

/// Whether `host` is `domain` or one of its subdomains.
pub open spec fn covers_domain(host: Seq<char>, domain: Seq<char>) -> bool {
    host == domain || (host.len() > domain.len() && host[host.len() - domain.len() - 1] == '.'
        && host.subrange(host.len() - domain.len(), host.len() as int) == domain)
}

/// Whether `host` is one of `domains` or a subdomain of one.
pub open spec fn domain_listed(host: Seq<char>, domains: Seq<Seq<char>>) -> bool {
    exists|i: int| 0 <= i < domains.len() && covers_domain(host, #[trigger] domains[i])
}

fn chars_equal_from(a: &Vec<char>, start: usize, b: &Vec<char>) -> (r: bool)
    requires
        start + b.len() == a.len(),
    ensures
        r == (a@.subrange(start as int, a.len() as int) == b@),
{
    for i in 0..b.len()
        invariant
            start + b.len() == a.len(),
            forall|j: int| 0 <= j < i ==> a@[start + j] == b@[j],
    {
        if a[start + i] != b[i] {
            assert(a@.subrange(start as int, a.len() as int)[i as int] != b@[i as int]);
            return false;
        }
    }
    assert(a@.subrange(start as int, a.len() as int) =~= b@);
    true
}

fn host_covers(host: &Vec<char>, domain: &Vec<char>) -> (r: bool)
    ensures
        r == covers_domain(host@, domain@),
{
    if host.len() == domain.len() {
        let same = chars_equal_from(host, 0, domain);
        assert(host@.subrange(0, host.len() as int) =~= host@);
        same
    } else if host.len() > domain.len() {
        let start = host.len() - domain.len();
        host[start - 1] == '.' && chars_equal_from(host, start, domain)
    } else {
        assert(host@.len() != domain@.len());
        false
    }
}

/// Whether `host` is one of `domains` or a subdomain of one.
pub fn host_listed(host: &str, domains: &Vec<String>) -> (r: bool)
    ensures
        r == domain_listed(host@, strings_view(domains@)),
{
    let h = chars_of(host);
    for i in 0..domains.len()
        invariant
            h@ == host@,
            forall|j: int| 0 <= j < i ==> !covers_domain(host@, domains@[j]@),
    {
        let d = chars_of(domains[i].as_str());
        if host_covers(&h, &d) {
            assert(covers_domain(host@, strings_view(domains@)[i as int]));
            return true;
        }
    }
    assert forall|j: int| 0 <= j < strings_view(domains@).len() implies !covers_domain(host@, #[trigger] strings_view(domains@)[j]) by {
        assert(strings_view(domains@)[j] == domains@[j]@);
    }
    false
}

} // verus!
