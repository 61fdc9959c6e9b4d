//! Verified text helpers: byte-to-text validation and character-level
//! matching used by the event classifier and the program loader.

use vstd::prelude::*;
use vstd::utf8::{decode_utf8, valid_utf8};

verus! {

/// Relies on `core::str::from_utf8`: it succeeds exactly on well-formed
/// UTF-8 input, and the returned text is the decoding of those bytes.
#[verifier::external_body]
pub(crate) fn bytes_as_text(v: &[u8]) -> (r: Option<&str>)
    ensures
        match r {
            Some(s) => valid_utf8(v@) && s@ == decode_utf8(v@),
            None => !valid_utf8(v@),
        },
{
    match core::str::from_utf8(v) {
        Ok(s) => Some(s),
        Err(_) => None,
    }
}

/// `p` stands at the front of `s`.
pub open spec fn has_prefix(s: Seq<char>, p: Seq<char>) -> bool {
    p.len() <= s.len() && s.subrange(0, p.len() as int) == p
}

/// `n` occurs in `s` starting at position `i`.
pub open spec fn occurs_at(s: Seq<char>, n: Seq<char>, i: int) -> bool {
    0 <= i && i + n.len() <= s.len() && s.subrange(i, i + n.len() as int) == n
}

/// `n` occurs somewhere in `s`.
pub open spec fn contains_seq(s: Seq<char>, n: Seq<char>) -> bool {
    exists|i: int| occurs_at(s, n, i)
}

/// A whitespace character: the Unicode `White_Space` set.
pub open spec fn is_space(c: char) -> bool {
    c == '\u{9}' || c == '\u{A}' || c == '\u{B}' || c == '\u{C}' || c == '\u{D}' || c == ' '
        || c == '\u{85}' || c == '\u{A0}' || c == '\u{1680}' || ('\u{2000}' <= c && c
        <= '\u{200A}') || c == '\u{2028}' || c == '\u{2029}' || c == '\u{202F}' || c == '\u{205F}'
        || c == '\u{3000}'
}

/// Whether `c` is whitespace.
pub fn char_is_space(c: char) -> (r: bool)
    ensures
        r == is_space(c),
{
    c == '\u{9}' || c == '\u{A}' || c == '\u{B}' || c == '\u{C}' || c == '\u{D}' || c == ' '
        || c == '\u{85}' || c == '\u{A0}' || c == '\u{1680}' || ('\u{2000}' <= c && c
        <= '\u{200A}') || c == '\u{2028}' || c == '\u{2029}' || c == '\u{202F}' || c == '\u{205F}'
        || c == '\u{3000}'
}

/// A comment line: its first non-whitespace character is the comment
/// marker `;`.
pub open spec fn is_comment(line: Seq<char>) -> bool
    decreases line.len(),
{
    if line.len() == 0 {
        false
    } else if is_space(line[0]) {
        is_comment(line.drop_first())
    } else {
        line[0] == ';'
    }
}

/// Whether the line is a comment.
pub fn is_comment_line(line: &str) -> (r: bool)
    ensures
        r == is_comment(line@),
{
    let n = line.unicode_len();
    proof {
        assert(line@.skip(0) =~= line@);
    }
    let mut i: usize = 0;
    while i < n
        invariant
            i <= n,
            n == line@.len(),
            is_comment(line@) == is_comment(line@.skip(i as int)),
        decreases n - i,
    {
        let c = line.get_char(i);
        proof {
            assert(line@.skip(i as int)[0] == c);
        }
        if !char_is_space(c) {
            return c == ';';
        }
        proof {
            assert(line@.skip(i as int).drop_first() =~= line@.skip(i + 1));
        }
        i = i + 1;
    }
    proof {
        assert(line@.skip(n as int).len() == 0);
    }
    false
}

/// Character-for-character equality of two text slices.
pub fn str_eq(a: &str, b: &str) -> (r: bool)
    ensures
        r == (a@ == b@),
{
    let alen = a.unicode_len();
    let blen = b.unicode_len();
    if alen != blen {
        return false;
    }
    let mut i: usize = 0;
    while i < alen
        invariant
            i <= alen,
            alen == a@.len(),
            alen == b@.len(),
            forall|j: int| 0 <= j < i ==> a@[j] == b@[j],
        decreases alen - i,
    {
        if a.get_char(i) != b.get_char(i) {
            return false;
        }
        i = i + 1;
    }
    proof {
        assert(a@ =~= b@);
    }
    true
}

/// Whether `p` stands at the front of `s`.
pub fn starts_with(s: &str, p: &str) -> (r: bool)
    ensures
        r == has_prefix(s@, p@),
{
    let slen = s.unicode_len();
    let plen = p.unicode_len();
    if plen > slen {
        return false;
    }
    let mut i: usize = 0;
    while i < plen
        invariant
            i <= plen,
            plen == p@.len(),
            slen == s@.len(),
            plen <= slen,
            forall|j: int| 0 <= j < i ==> s@[j] == p@[j],
        decreases plen - i,
    {
        if s.get_char(i) != p.get_char(i) {
            proof {
                assert(s@.subrange(0, p@.len() as int)[i as int] != p@[i as int]);
            }
            return false;
        }
        i = i + 1;
    }
    proof {
        assert(s@.subrange(0, p@.len() as int) =~= p@);
    }
    true
}

/// Whether `n` occurs anywhere in `s`.
pub fn contains_text(s: &str, n: &str) -> (r: bool)
    ensures
        r == contains_seq(s@, n@),
{
    let slen = s.unicode_len();
    let nlen = n.unicode_len();
    if nlen > slen {
        proof {
            assert(forall|i: int| !occurs_at(s@, n@, i));
        }
        return false;
    }
    if nlen == 0 {
        proof {
            assert(s@.subrange(0, 0) =~= n@);
            assert(occurs_at(s@, n@, 0));
        }
        return true;
    }
    let bound: usize = slen - nlen + 1;
    let mut i: usize = 0;
    while i < bound
        invariant
            i <= bound,
            bound == slen - nlen + 1,
            1 <= nlen <= slen,
            slen == s@.len(),
            nlen == n@.len(),
            forall|j: int| 0 <= j < i ==> !occurs_at(s@, n@, j),
        decreases bound - i,
    {
        let mut k: usize = 0;
        let mut matched = true;
        while k < nlen
            invariant
                k <= nlen,
                i + nlen <= slen,
                slen == s@.len(),
                nlen == n@.len(),
                matched ==> forall|m: int| 0 <= m < k ==> s@[i + m] == n@[m],
                !matched ==> !occurs_at(s@, n@, i as int),
            decreases nlen - k,
        {
            if s.get_char(i + k) != n.get_char(k) {
                matched = false;
                proof {
                    assert(s@.subrange(i as int, i + n@.len() as int)[k as int] != n@[k as int]);
                    assert(!occurs_at(s@, n@, i as int));
                }
                k = nlen;
            } else {
                k = k + 1;
            }
        }
        if matched {
            proof {
                assert(s@.subrange(i as int, i + n@.len() as int) =~= n@);
                assert(occurs_at(s@, n@, i as int));
            }
            return true;
        }
        i = i + 1;
    }
    proof {
        assert(forall|j: int| occurs_at(s@, n@, j) ==> 0 <= j <= s@.len() - n@.len());
    }
    false
}

} // verus!
