//! Verified string utilities: concatenation, equality, code-point
//! lexicographic order, prefix test and substring search.
//!
//! Timestamps in this crate are RFC 3339 strings of a fixed shape, so the
//! order of two timestamps is their lexicographic order; UTF-8 makes the
//! code-point order below agree with the byte order that `str`'s `Ord` uses.

use vstd::prelude::*;
use vstd::string::*;

verus! {

broadcast use vstd::utf8::char_u32_cast;

/// `a` followed by `b`.
pub fn str_concat(a: &str, b: &str) -> (r: String)
    ensures
        r@ == a@ + b@,
{
    let mut s = String::from_str(a);
    s.append(b);
    s
}

/// Character-for-character equality of two string slices.
pub fn str_eq(a: &str, b: &str) -> (r: bool)
    ensures
        r == (a@ == b@),
{
    let sa = String::from_str(a);
    let sb = String::from_str(b);
    sa == sb
}

/// Lexicographic order on character sequences, by code point: the empty
/// sequence comes first, otherwise the first differing position decides.
pub open spec fn lex_le(a: Seq<char>, b: Seq<char>) -> bool
    decreases a.len(),
{
    if a.len() == 0 {
        true
    } else if b.len() == 0 {
        false
    } else if a[0] == b[0] {
        lex_le(a.drop_first(), b.drop_first())
    } else {
        (a[0] as u32) < (b[0] as u32)
    }
}

/// Any two sequences are ordered one way or the other.
pub proof fn lemma_lex_le_total(a: Seq<char>, b: Seq<char>)
    ensures
        lex_le(a, b) || lex_le(b, a),
    decreases a.len(),
{
    if a.len() == 0 || b.len() == 0 {
    } else if a[0] == b[0] {
        lemma_lex_le_total(a.drop_first(), b.drop_first());
    } else {
        vstd::utf8::char_u32_cast(a[0], a[0] as u32);
        vstd::utf8::char_u32_cast(b[0], b[0] as u32);
        assert((a[0] as u32) != (b[0] as u32));
    }
}

/// Two sequences each at or before the other are equal.
pub proof fn lemma_lex_le_antisymmetric(a: Seq<char>, b: Seq<char>)
    requires
        lex_le(a, b),
        lex_le(b, a),
    ensures
        a == b,
    decreases a.len(),
{
    if a.len() == 0 {
        assert(b.len() == 0);
        assert(a =~= b);
    } else {
        assert(b.len() > 0);
        assert(a[0] == b[0]);
        lemma_lex_le_antisymmetric(a.drop_first(), b.drop_first());
        assert(a =~= seq![a[0]] + a.drop_first());
        assert(b =~= seq![b[0]] + b.drop_first());
    }
}

/// The order is transitive.
pub proof fn lemma_lex_le_transitive(a: Seq<char>, b: Seq<char>, c: Seq<char>)
    requires
        lex_le(a, b),
        lex_le(b, c),
    ensures
        lex_le(a, c),
    decreases a.len(),
{
    if a.len() == 0 || b.len() == 0 || c.len() == 0 {
    } else if a[0] == b[0] && b[0] == c[0] {
        lemma_lex_le_transitive(a.drop_first(), b.drop_first(), c.drop_first());
    }
}

/// A common equal prefix does not affect the order of the remainders.
proof fn lemma_lex_le_skip(a: Seq<char>, b: Seq<char>, i: int)
    requires
        0 <= i <= a.len(),
        i <= b.len(),
        forall|j: int| 0 <= j < i ==> a[j] == b[j],
    ensures
        lex_le(a, b) == lex_le(a.skip(i), b.skip(i)),
    decreases i,
{
    if i == 0 {
        assert(a.skip(0) =~= a);
        assert(b.skip(0) =~= b);
    } else {
        assert(a.len() > 0 && b.len() > 0);
        assert(a[0] == b[0]);
        assert(a.drop_first() =~= a.skip(1));
        assert(b.drop_first() =~= b.skip(1));
        lemma_lex_le_skip(a.skip(1), b.skip(1), i - 1);
        assert(a.skip(1).skip(i - 1) =~= a.skip(i));
        assert(b.skip(1).skip(i - 1) =~= b.skip(i));
    }
}

/// Decides the lexicographic order of two string slices.
pub fn str_lex_le(a: &str, b: &str) -> (r: bool)
    ensures
        r == lex_le(a@, b@),
{
    let alen = a.unicode_len();
    let blen = b.unicode_len();
    let mut i: usize = 0;
    while i < alen && i < blen
        invariant
            alen == a@.len(),
            blen == b@.len(),
            i <= alen,
            i <= blen,
            forall|j: int| 0 <= j < i ==> a@[j] == b@[j],
        decreases alen - i,
    {
        let ca = a.get_char(i);
        let cb = b.get_char(i);
        let ca_code = ca as u32;
        let cb_code = cb as u32;
        if ca_code < cb_code {
            proof {
                lemma_lex_le_skip(a@, b@, i as int);
                assert(a@.skip(i as int)[0] == a@[i as int]);
                assert(b@.skip(i as int)[0] == b@[i as int]);
            }
            return true;
        }
        if ca_code > cb_code {
            proof {
                lemma_lex_le_skip(a@, b@, i as int);
                assert(a@.skip(i as int)[0] == a@[i as int]);
                assert(b@.skip(i as int)[0] == b@[i as int]);
            }
            return false;
        }
        proof {
            assert(ca as u32 == cb as u32 ==> ca == cb);
        }
        i = i + 1;
    }
    proof {
        lemma_lex_le_skip(a@, b@, i as int);
    }
    i >= alen
}

/// `p` stands at the front of `s`.
pub open spec fn has_prefix(s: Seq<char>, p: Seq<char>) -> bool {
    p.len() <= s.len() && s.subrange(0, p.len() as int) == p
}

/// `n` stands in `h` at position `i`.
pub open spec fn matches_at(h: Seq<char>, n: Seq<char>, i: int) -> bool {
    0 <= i && i + n.len() <= h.len() && h.subrange(i, i + n.len()) == n
}

/// `n` stands somewhere in `h`.
pub open spec fn contains_seq(h: Seq<char>, n: Seq<char>) -> bool {
    exists|i: int| matches_at(h, n, i)
}

/// Compares `n` against the characters of `h` starting at `i`.
pub(crate) fn match_at(h: &str, n: &str, i: usize, hlen: usize, nlen: usize) -> (r: bool)
    requires
        hlen == h@.len(),
        nlen == n@.len(),
        i + nlen <= hlen,
    ensures
        r == matches_at(h@, n@, i as int),
{
    let mut j: usize = 0;
    while j < nlen
        invariant
            hlen == h@.len(),
            nlen == n@.len(),
            i + nlen <= hlen,
            j <= nlen,
            forall|k: int| 0 <= k < j ==> h@[i + k] == n@[k],
        decreases nlen - j,
    {
        let ch = h.get_char(i + j);
        let cn = n.get_char(j);
        if ch as u32 != cn as u32 {
            proof {
                assert(h@.subrange(i as int, i + n@.len())[j as int] == h@[i + j]);
            }
            return false;
        }
        proof {
            assert(ch as u32 == cn as u32 ==> ch == cn);
        }
        j = j + 1;
    }
    proof {
        assert(h@.subrange(i as int, i + n@.len()) =~= n@);
    }
    true
}

/// Decides whether `n` occurs as a contiguous substring of `h`.
pub fn str_contains(h: &str, n: &str) -> (r: bool)
    ensures
        r == contains_seq(h@, n@),
{
    let hlen = h.unicode_len();
    let nlen = n.unicode_len();
    if nlen > hlen {
        proof {
            assert(forall|i: int| !matches_at(h@, n@, i));
        }
        return false;
    }
    if nlen == 0 {
        proof {
            assert(h@.subrange(0, 0) =~= n@);
            assert(matches_at(h@, n@, 0));
        }
        return true;
    }
    let mut i: usize = 0;
    while i <= hlen - nlen
        invariant
            hlen == h@.len(),
            nlen == n@.len(),
            1 <= nlen <= hlen,
            i <= hlen - nlen + 1,
            forall|k: int| 0 <= k < i ==> !matches_at(h@, n@, k),
        decreases hlen - i,
    {
        if match_at(h, n, i, hlen, nlen) {
            return true;
        }
        i = i + 1;
    }
    proof {
        assert(forall|k: int| matches_at(h@, n@, k) ==> 0 <= k <= hlen - nlen);
    }
    false
}

/// Decides whether `p` stands at the front of `s`.
pub fn str_has_prefix(s: &str, p: &str) -> (r: bool)
    ensures
        r == has_prefix(s@, p@),
{
    let slen = s.unicode_len();
    let plen = p.unicode_len();
    if plen > slen {
        return false;
    }
    match_at(s, p, 0, slen, plen)
}

} // verus!
