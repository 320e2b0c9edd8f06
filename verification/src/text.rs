//! Character sequences: search, case folding and cutting at a separator.

use vstd::prelude::*;
use vstd::string::*;

verus! {

/// `needle` stands in `hay` at offset `at`.
pub open spec fn occurs_at(hay: Seq<char>, needle: Seq<char>, at: int) -> bool {
    &&& 0 <= at
    &&& at + needle.len() <= hay.len()
    &&& hay.subrange(at, at + needle.len()) == needle
}

/// `needle` stands somewhere in `hay`.
pub open spec fn has_infix(hay: Seq<char>, needle: Seq<char>) -> bool {
    exists|at: int| occurs_at(hay, needle, at)
}

/// `s` ends with `suffix`.
pub open spec fn has_suffix(s: Seq<char>, suffix: Seq<char>) -> bool {
    occurs_at(s, suffix, s.len() - suffix.len())
}

/// The lower-case form of an ASCII letter; any other character is itself.
pub open spec fn lower(c: char) -> char {
    if 'A' <= c && c <= 'Z' {
        ((c as u8) + 32) as char
    } else {
        c
    }
}

/// `s` with every ASCII letter in lower case.
pub open spec fn folded(s: Seq<char>) -> Seq<char> {
    Seq::new(s.len(), |i: int| lower(s[i]))
}

/// The offset just behind the last `sep` in `s`, or 0 where `s` holds none.
pub open spec fn cut_after(s: Seq<char>, sep: char) -> int
    decreases s.len(),
{
    if s.len() == 0 {
        0
    } else if s.last() == sep {
        s.len() as int
    } else {
        cut_after(s.drop_last(), sep)
    }
}

/// What follows the last `sep` in `s`; all of `s` where it holds none.
pub open spec fn tail_after(s: Seq<char>, sep: char) -> Seq<char> {
    s.subrange(cut_after(s, sep), s.len() as int)
}

/// The cut is inside `s`, nothing behind it is a separator, and a separator
/// stands right before it unless it is 0.
pub proof fn lemma_cut_after(s: Seq<char>, sep: char)
    ensures
        0 <= cut_after(s, sep) <= s.len(),
        forall|k: int| cut_after(s, sep) <= k < s.len() ==> s[k] != sep,
        cut_after(s, sep) > 0 ==> s[cut_after(s, sep) - 1] == sep,
        !tail_after(s, sep).contains(sep),
    decreases s.len(),
{
    let cut = cut_after(s, sep);
    if s.len() > 0 && s.last() != sep {
        let init = s.drop_last();
        lemma_cut_after(init, sep);
        assert forall|k: int| cut <= k < s.len() implies s[k] != sep by {
            if k < init.len() {
                assert(init[k] == s[k]);
            }
        }
    }
    let tail = tail_after(s, sep);
    assert forall|j: int| 0 <= j < tail.len() implies tail[j] != sep by {
        assert(tail[j] == s[cut + j]);
    }
}

/// There is one such cut only: an offset with no separator behind it and
/// one right before it, unless it is 0, is the cut.
pub proof fn lemma_cut_after_unique(s: Seq<char>, sep: char, cut: int)
    requires
        0 <= cut <= s.len(),
        forall|k: int| cut <= k < s.len() ==> s[k] != sep,
        cut > 0 ==> s[cut - 1] == sep,
    ensures
        cut_after(s, sep) == cut,
    decreases s.len(),
{
    if s.len() > 0 && s.last() != sep {
        lemma_cut_after_unique(s.drop_last(), sep, cut);
    }
}

/// Appending text keeps every occurrence that was there.
pub proof fn lemma_infix_grows(hay: Seq<char>, more: Seq<char>, needle: Seq<char>)
    requires
        has_infix(hay, needle),
    ensures
        has_infix(hay + more, needle),
{
    let at = choose|at: int| occurs_at(hay, needle, at);
    assert((hay + more).subrange(at, at + needle.len()) =~= hay.subrange(at, at + needle.len()));
    assert(occurs_at(hay + more, needle, at));
}

/// Text that is appended brings its occurrences along.
pub proof fn lemma_infix_appended(hay: Seq<char>, more: Seq<char>, needle: Seq<char>)
    requires
        has_infix(more, needle),
    ensures
        has_infix(hay + more, needle),
{
    let at = choose|at: int| occurs_at(more, needle, at);
    assert((hay + more).subrange(hay.len() + at, hay.len() + at + needle.len())
        =~= more.subrange(at, at + needle.len()));
    assert(occurs_at(hay + more, needle, hay.len() + at));
}

/// The characters of `s`, in order.
pub fn chars_of(s: &str) -> (v: Vec<char>)
    ensures
        v@ == s@,
{
    let mut v: Vec<char> = Vec::new();
    for c in it: s.chars()
        invariant
            v@ == it.seq().take(it.index() as int),
            it.seq() == s@,
    {
        v.push(c);
    }
    v
}

/// The lower-case form of an ASCII letter; any other character unchanged.
pub fn to_lower(c: char) -> (r: char)
    ensures
        r == lower(c),
{
    if 'A' <= c && c <= 'Z' {
        ((c as u8) + 32) as char
    } else {
        c
    }
}

fn matches_at(hay: &Vec<char>, needle: &Vec<char>, at: usize) -> (r: bool)
    requires
        at + needle.len() <= hay.len(),
    ensures
        r == occurs_at(hay@, needle@, at as int),
{
    let mut j: usize = 0;
    while j < needle.len()
        invariant
            at + needle.len() <= hay.len(),
            j <= needle.len(),
            forall|k: int| 0 <= k < j ==> hay@[at + k] == needle@[k],
        decreases needle.len() - j,
    {
        if hay[at + j] != needle[j] {
            assert(hay@.subrange(at as int, at + needle.len())[j as int] != needle@[j as int]);
            return false;
        }
        j = j + 1;
    }
    assert(hay@.subrange(at as int, at + needle.len()) =~= needle@);
    true
}

/// Whether `needle` stands somewhere in `hay`.
pub fn contains(hay: &str, needle: &str) -> (found: bool)
    ensures
        found == has_infix(hay@, needle@),
{
    let h = chars_of(hay);
    let n = chars_of(needle);
    if n.len() > h.len() {
        return false;
    }
    let last: usize = h.len() - n.len();
    let mut at: usize = 0;
    loop
        invariant
            h@ == hay@,
            n@ == needle@,
            last == h.len() - n.len(),
            at <= last,
            forall|k: int| 0 <= k < at ==> !occurs_at(h@, n@, k),
        decreases last - at,
    {
        if matches_at(&h, &n, at) {
            return true;
        }
        if at == last {
            return false;
        }
        at = at + 1;
    }
}

/// Whether `s`, with its ASCII letters in lower case, ends with `suffix`.
pub fn ends_with_folded(s: &Vec<char>, suffix: &str) -> (r: bool)
    ensures
        r == has_suffix(folded(s@), suffix@),
{
    let t = chars_of(suffix);
    if t.len() > s.len() {
        return false;
    }
    let from: usize = s.len() - t.len();
    let mut j: usize = 0;
    while j < t.len()
        invariant
            t@ == suffix@,
            t.len() <= s.len(),
            from == s.len() - t.len(),
            j <= t.len(),
            forall|k: int| 0 <= k < j ==> lower(s@[from + k]) == t@[k],
        decreases t.len() - j,
    {
        if to_lower(s[from + j]) != t[j] {
            assert(folded(s@).subrange(from as int, s.len() as int)[j as int] != t@[j as int]);
            return false;
        }
        j = j + 1;
    }
    assert(folded(s@).subrange(from as int, s.len() as int) =~= t@);
    true
}

/// The offset just behind the last `sep` in `s`, or 0 where `s` holds none.
pub fn find_cut(s: &Vec<char>, sep: char) -> (cut: usize)
    ensures
        cut == cut_after(s@, sep),
        cut <= s.len(),
{
    let mut cut: usize = 0;
    let mut i: usize = 0;
    while i < s.len()
        invariant
            i <= s.len(),
            cut <= i,
            cut == cut_after(s@.take(i as int), sep),
        decreases s.len() - i,
    {
        assert(s@.take(i + 1).drop_last() =~= s@.take(i as int));
        i = i + 1;
        if s[i - 1] == sep {
            cut = i;
        }
    }
    assert(s@.take(s.len() as int) =~= s@);
    cut
}

/// `prefix`, `body` and `suffix` in one string.
pub fn framed(prefix: &str, body: &str, suffix: &str) -> (r: String)
    ensures
        r@ == prefix@ + body@ + suffix@,
{
    let mut r = String::from_str(prefix);
    r.append(body);
    r.append(suffix);
    r
}

} // verus!
