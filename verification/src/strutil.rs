//! Character-level string helpers.
//!
//! Pattern detection, severity parsing and alert validation all compare
//! strings case-insensitively. These helpers fold ASCII letters to lower
//! case (other characters are kept as they are), search for substrings and
//! test for blank text, each against an exact specification over the
//! string's character sequence.

use vstd::prelude::*;

verus! {

use vstd::string::StrSliceExecFns;

/// ASCII lower-casing of one character; every other character is unchanged.
pub open spec fn lower_char(c: char) -> char {
    if 'A' <= c && c <= 'Z' {
        ((c as u8) + 32) as char
    } else {
        c
    }
}

/// Character-wise ASCII lower-casing of a character sequence.
pub open spec fn spec_lower(s: Seq<char>) -> Seq<char> {
    Seq::new(s.len(), |i: int| lower_char(s[i]))
}

/// `n` occurs in `h` starting at position `i`.
pub open spec fn spec_contains_at(h: Seq<char>, n: Seq<char>, i: int) -> bool {
    0 <= i && i + n.len() <= h.len() && h.subrange(i, i + n.len() as int) == n
}

/// `n` occurs somewhere in `h`.
pub open spec fn spec_contains(h: Seq<char>, n: Seq<char>) -> bool {
    exists|i: int| spec_contains_at(h, n, i)
}

/// A character of the Unicode White_Space set: exactly the characters
/// `str::trim` removes.
pub open spec fn is_space_char(c: char) -> bool {
    c == '\t' || c == '\n' || c == '\u{000B}' || c == '\u{000C}' || c == '\r' || c == ' '
        || c == '\u{0085}' || c == '\u{00A0}' || c == '\u{1680}'
        || ('\u{2000}' <= c && c <= '\u{200A}')
        || c == '\u{2028}' || c == '\u{2029}' || c == '\u{202F}' || c == '\u{205F}'
        || c == '\u{3000}'
}

/// The text contains nothing but whitespace (so trimming empties it).
pub open spec fn spec_blank(s: Seq<char>) -> bool {
    forall|i: int| 0 <= i < s.len() ==> is_space_char(#[trigger] s[i])
}

pub fn lower_char_exec(c: char) -> (r: char)
    ensures
        r == lower_char(c),
{
    if 'A' <= c && c <= 'Z' {
        let b: u8 = (c as u8) + 32;
        b as char
    } else {
        c
    }
}

/// The characters of `s`, ASCII-folded to lower case.
pub fn lower_chars(s: &str) -> (r: Vec<char>)
    ensures
        r@ == spec_lower(s@),
{
    let len = s.unicode_len();
    let mut r: Vec<char> = Vec::new();
    let mut i: usize = 0;
    while i < len
        invariant
            len == s@.len(),
            i <= len,
            r@ == spec_lower(s@).subrange(0, i as int),
        decreases len - i,
    {
        r.push(lower_char_exec(s.get_char(i)));
        proof {
            assert(r@ =~= spec_lower(s@).subrange(0, i + 1 as int));
        }
        i += 1;
    }
    proof {
        assert(r@ =~= spec_lower(s@));
    }
    r
}

/// Character-sequence equality between a character vector and a string.
pub fn chars_eq_str(a: &Vec<char>, b: &str) -> (r: bool)
    ensures
        r == (a@ == b@),
{
    let blen = b.unicode_len();
    if a.len() != blen {
        proof {
            assert(a@ != b@);
        }
        return false;
    }
    let mut i: usize = 0;
    while i < blen
        invariant
            blen == b@.len(),
            a@.len() == blen,
            i <= blen,
            forall|j: int| 0 <= j < i ==> a@[j] == b@[j],
        decreases blen - i,
    {
        if a[i] != b.get_char(i) {
            return false;
        }
        i += 1;
    }
    proof {
        assert(a@ =~= b@);
    }
    true
}

/// Substring search: does `n` occur in `h`?
pub fn contains_chars(h: &Vec<char>, n: &str) -> (r: bool)
    ensures
        r == spec_contains(h@, n@),
{
    let nlen = n.unicode_len();
    let hlen = h.len();
    if nlen > hlen {
        proof {
            assert(!spec_contains(h@, n@));
        }
        return false;
    }
    if nlen == 0 {
        proof {
            assert(h@.subrange(0, 0) =~= n@);
            assert(spec_contains_at(h@, n@, 0));
        }
        return true;
    }
    let bound = hlen - nlen + 1;
    let mut i: usize = 0;
    while i < bound
        invariant
            nlen == n@.len(),
            hlen == h@.len(),
            nlen <= hlen,
            bound == hlen - nlen + 1,
            i <= bound,
            forall|k: int| 0 <= k < i ==> !spec_contains_at(h@, n@, k),
        decreases bound - i,
    {
        let mut j: usize = 0;
        let mut matched = true;
        while j < nlen
            invariant
                nlen == n@.len(),
                hlen == h@.len(),
                nlen <= hlen,
                i + nlen <= hlen,
                j <= nlen,
                matched ==> forall|t: int| 0 <= t < j ==> h@[i + t] == n@[t],
                !matched ==> !spec_contains_at(h@, n@, i as int),
            decreases nlen - j,
        {
            if h[i + j] != n.get_char(j) {
                proof {
                    assert(h@.subrange(i as int, i + nlen as int)[j as int] != n@[j as int]);
                }
                matched = false;
                j = nlen;
            } else {
                j += 1;
            }
        }
        if matched {
            proof {
                assert(h@.subrange(i as int, i + nlen as int) =~= n@);
                assert(spec_contains_at(h@, n@, i as int));
            }
            return true;
        }
        i += 1;
    }
    proof {
        assert forall|k: int| !spec_contains_at(h@, n@, k) by {
            if 0 <= k && k + n@.len() <= h@.len() {
                assert(!spec_contains_at(h@, n@, k));
            }
        }
    }
    false
}

/// Is the whole string whitespace (or empty)?
pub fn is_blank(s: &str) -> (r: bool)
    ensures
        r == spec_blank(s@),
{
    let len = s.unicode_len();
    let mut i: usize = 0;
    while i < len
        invariant
            len == s@.len(),
            i <= len,
            forall|j: int| 0 <= j < i ==> is_space_char(#[trigger] s@[j]),
        decreases len - i,
    {
        let c = s.get_char(i);
        let ws = c == '\t' || c == '\n' || c == '\u{000B}' || c == '\u{000C}' || c == '\r'
            || c == ' ' || c == '\u{0085}' || c == '\u{00A0}' || c == '\u{1680}'
            || ('\u{2000}' <= c && c <= '\u{200A}')
            || c == '\u{2028}' || c == '\u{2029}' || c == '\u{202F}' || c == '\u{205F}'
            || c == '\u{3000}';
        if !ws {
            return false;
        }
        i += 1;
    }
    true
}

/// Relies on `String::push`: appends exactly the one character to the end.
#[verifier::external_body]
pub fn push_char(s: &mut String, c: char)
    ensures
        final(s)@ == old(s)@.push(c),
{
    s.push(c);
}

/// A string with exactly the given characters.
pub fn string_from_chars(v: &Vec<char>) -> (r: String)
    ensures
        r@ == v@,
{
    let mut r = String::new();
    let mut i: usize = 0;
    while i < v.len()
        invariant
            i <= v@.len(),
            r@ == v@.take(i as int),
        decreases v@.len() - i,
    {
        push_char(&mut r, v[i]);
        proof {
            assert(v@.take(i as int).push(v@[i as int]) =~= v@.take(i + 1 as int));
        }
        i += 1;
    }
    proof {
        assert(v@.take(v@.len() as int) =~= v@);
    }
    r
}

/// Character-sequence equality of two string slices.
pub fn str_eq(a: &str, b: &str) -> (r: bool)
    ensures
        r == (a@ == b@),
{
    let ao = a.to_owned();
    let bo = b.to_owned();
    ao == bo
}

/// Does the ASCII-lowered text contain the (already lower-case) needle?
pub fn lower_contains(s: &str, needle: &str) -> (r: bool)
    ensures
        r == spec_contains(spec_lower(s@), needle@),
{
    let lowered = lower_chars(s);
    contains_chars(&lowered, needle)
}

} // verus!
