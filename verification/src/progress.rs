//! Parsing of the engine's output lines into progress observations.
//!
//! A line can carry a bracketed timestamp range (`[00:01:23.456 --> ...]`),
//! a bracketed percentage (`[42%]`), or one of the known model-loading and
//! completion markers.  Each recognized shape yields a progress value in
//! permille; anything else yields nothing — an unrecognized line is never an
//! error.  All numbers are exact integers: times in milliseconds, progress
//! in thousandths.

use vstd::prelude::*;
use vstd::string::*;

use crate::strutil;

verus! {

/// One progress observation parsed from an output line.
#[derive(Debug, PartialEq)]
pub struct ProgressInfo {
    pub progress_permille: u32,
    pub current_time_millis: Option<u64>,
    pub message: String,
}

/// Ghost image of a progress observation.
#[verifier::ext_equal]
pub ghost struct ProgressView {
    pub progress_permille: u32,
    pub current_time_millis: Option<u64>,
    pub message: Seq<char>,
}

impl View for ProgressInfo {
    type V = ProgressView;

    open spec fn view(&self) -> ProgressView {
        ProgressView {
            progress_permille: self.progress_permille,
            current_time_millis: self.current_time_millis,
            message: self.message@,
        }
    }
}

/// Index of the first occurrence of `c` in `s`.
pub open spec fn index_of_char(s: Seq<char>, c: char) -> Option<int>
    decreases s.len(),
{
    if s.len() == 0 {
        None
    } else if s[0] == c {
        Some(0)
    } else {
        match index_of_char(s.drop_first(), c) {
            Some(i) => Some(i + 1),
            None => None,
        }
    }
}

/// Index of the first occurrence of `n` as a substring of `h`.
pub open spec fn index_of_seq(h: Seq<char>, n: Seq<char>) -> Option<int>
    decreases h.len(),
{
    if h.len() < n.len() {
        None
    } else if h.subrange(0, n.len() as int) == n {
        Some(0)
    } else if h.len() == 0 {
        None
    } else {
        match index_of_seq(h.drop_first(), n) {
            Some(i) => Some(i + 1),
            None => None,
        }
    }
}

proof fn lemma_index_of_char_at(s: Seq<char>, c: char, i: int)
    requires
        0 <= i < s.len(),
        s[i] == c,
        forall|j: int| 0 <= j < i ==> s[j] != c,
    ensures
        index_of_char(s, c) == Some(i),
    decreases i,
{
    if i > 0 {
        lemma_index_of_char_at(s.drop_first(), c, i - 1);
    }
}

proof fn lemma_index_of_char_none(s: Seq<char>, c: char)
    requires
        forall|j: int| 0 <= j < s.len() ==> s[j] != c,
    ensures
        index_of_char(s, c) is None,
    decreases s.len(),
{
    if s.len() > 0 {
        lemma_index_of_char_none(s.drop_first(), c);
    }
}

proof fn lemma_index_of_seq_at(h: Seq<char>, n: Seq<char>, i: int)
    requires
        strutil::matches_at(h, n, i),
        forall|j: int| 0 <= j < i ==> !strutil::matches_at(h, n, j),
    ensures
        index_of_seq(h, n) == Some(i),
    decreases i,
{
    if i == 0 {
        assert(h.subrange(0, n.len() as int) == n);
    } else {
        assert(!strutil::matches_at(h, n, 0));
        assert(h.subrange(0, n.len() as int) != n);
        let h1 = h.drop_first();
        assert(h1.subrange(i - 1, i - 1 + n.len()) =~= h.subrange(i, i + n.len()));
        assert(strutil::matches_at(h1, n, i - 1));
        assert forall|j: int| 0 <= j < i - 1 implies !strutil::matches_at(h1, n, j) by {
            assert(h1.subrange(j, j + n.len()) =~= h.subrange(j + 1, j + 1 + n.len()));
            assert(!strutil::matches_at(h, n, j + 1));
        };
        lemma_index_of_seq_at(h1, n, i - 1);
    }
}

proof fn lemma_index_of_seq_none(h: Seq<char>, n: Seq<char>)
    requires
        forall|j: int| !strutil::matches_at(h, n, j),
    ensures
        index_of_seq(h, n) is None,
    decreases h.len(),
{
    if h.len() < n.len() {
    } else {
        assert(!strutil::matches_at(h, n, 0));
        assert(h.subrange(0, n.len() as int) != n);
        if n.len() == 0 {
            assert(h.subrange(0, 0) =~= n);
        }
        assert(h.len() > 0);
        let h1 = h.drop_first();
        assert forall|j: int| !strutil::matches_at(h1, n, j) by {
            if 0 <= j && j + n.len() <= h1.len() {
                assert(h1.subrange(j, j + n.len()) =~= h.subrange(j + 1, j + 1 + n.len()));
                assert(!strutil::matches_at(h, n, j + 1));
            }
        };
        lemma_index_of_seq_none(h1, n);
    }
}

/// Finds the first occurrence of `c` in `s`.
pub fn find_first_char(s: &str, c: char) -> (r: Option<usize>)
    ensures
        r is Some ==> index_of_char(s@, c) == Some(r->0 as int) && r->0 < s@.len(),
        r is None ==> index_of_char(s@, c) is None,
{
    let len = s.unicode_len();
    let mut i: usize = 0;
    while i < len
        invariant
            len == s@.len(),
            i <= len,
            forall|j: int| 0 <= j < i ==> s@[j] != c,
        decreases len - i,
    {
        if s.get_char(i) == c {
            proof {
                lemma_index_of_char_at(s@, c, i as int);
            }
            return Some(i);
        }
        i = i + 1;
    }
    proof {
        lemma_index_of_char_none(s@, c);
    }
    None
}

/// Finds the first occurrence of `n` as a substring of `h`.
pub fn find_first_sub(h: &str, n: &str) -> (r: Option<usize>)
    ensures
        r is Some ==> index_of_seq(h@, n@) == Some(r->0 as int) && r->0 + n@.len() <= h@.len(),
        r is None ==> index_of_seq(h@, n@) is None,
{
    let hlen = h.unicode_len();
    let nlen = n.unicode_len();
    if nlen > hlen {
        proof {
            assert(forall|j: int| !strutil::matches_at(h@, n@, j));
            lemma_index_of_seq_none(h@, n@);
        }
        return None;
    }
    if nlen == 0 {
        proof {
            assert(h@.subrange(0, 0) =~= n@);
        }
        return Some(0);
    }
    let mut i: usize = 0;
    while i <= hlen - nlen
        invariant
            hlen == h@.len(),
            nlen == n@.len(),
            1 <= nlen <= hlen,
            i <= hlen - nlen + 1,
            forall|j: int| 0 <= j < i ==> !strutil::matches_at(h@, n@, j),
        decreases hlen - nlen + 1 - i,
    {
        if strutil::match_at(h, n, i, hlen, nlen) {
            proof {
                lemma_index_of_seq_at(h@, n@, i as int);
            }
            return Some(i);
        }
        i = i + 1;
    }
    proof {
        assert(forall|j: int| j > hlen - nlen ==> !strutil::matches_at(h@, n@, j));
        lemma_index_of_seq_none(h@, n@);
    }
    None
}

/// A decimal digit.
pub open spec fn is_digit(c: char) -> bool {
    48 <= (c as u32) <= 57
}

/// Every character is a decimal digit.
pub open spec fn all_digits(s: Seq<char>) -> bool {
    forall|i: int| 0 <= i < s.len() ==> is_digit(#[trigger] s[i])
}

/// The numeric value of one digit.
pub open spec fn digit_val(c: char) -> int {
    (c as u32) - 48
}

/// The number the digit string denotes.
pub open spec fn digits_val(s: Seq<char>) -> int
    decreases s.len(),
{
    if s.len() == 0 {
        0
    } else {
        digits_val(s.drop_last()) * 10 + digit_val(s.last())
    }
}

/// Ten to the `n`.
pub open spec fn pow10(n: nat) -> int
    decreases n,
{
    if n == 0 {
        1
    } else {
        10 * pow10((n - 1) as nat)
    }
}

proof fn lemma_pow10_small()
    ensures
        pow10(0) == 1,
        pow10(1) == 10,
        pow10(2) == 100,
        pow10(3) == 1000,
        pow10(8) == 100000000,
        pow10(9) == 1000000000,
{
    reveal_with_fuel(pow10, 11);
}

proof fn lemma_pow10_mono(a: nat, b: nat)
    requires
        a <= b,
    ensures
        pow10(a) <= pow10(b),
    decreases b,
{
    if a < b {
        lemma_pow10_mono(a, (b - 1) as nat);
        lemma_pow10_pos(a);
    }
}

proof fn lemma_pow10_pos(n: nat)
    ensures
        pow10(n) >= 1,
    decreases n,
{
    if n > 0 {
        lemma_pow10_pos((n - 1) as nat);
    }
}

proof fn lemma_digits_val_bound(s: Seq<char>)
    requires
        all_digits(s),
    ensures
        0 <= digits_val(s) < pow10(s.len()),
    decreases s.len(),
{
    if s.len() > 0 {
        lemma_digits_val_bound(s.drop_last());
        assert(is_digit(s.last()));
    }
}

/// Decides whether every character is a decimal digit.
fn all_digits_exec(s: &str) -> (r: bool)
    ensures
        r == all_digits(s@),
{
    let len = s.unicode_len();
    let mut i: usize = 0;
    while i < len
        invariant
            len == s@.len(),
            i <= len,
            forall|j: int| 0 <= j < i ==> is_digit(#[trigger] s@[j]),
        decreases len - i,
    {
        let u = s.get_char(i) as u32;
        if u < 48 || u > 57 {
            return false;
        }
        i = i + 1;
    }
    true
}

/// Reads a digit string of at most nine digits.
fn digits_value9(s: &str) -> (r: u64)
    requires
        all_digits(s@),
        s@.len() <= 9,
    ensures
        r == digits_val(s@),
        r < 1000000000,
{
    proof {
        lemma_pow10_small();
    }
    let len = s.unicode_len();
    let mut r: u64 = 0;
    let mut i: usize = 0;
    while i < len
        invariant
            all_digits(s@),
            len == s@.len() <= 9,
            i <= len,
            r == digits_val(s@.take(i as int)),
            r < pow10(i as nat),
        decreases len - i,
    {
        proof {
            lemma_pow10_small();
            lemma_pow10_mono(i as nat, 8);
            assert(s@.take(i as int + 1).drop_last() =~= s@.take(i as int));
            assert(s@.take(i as int + 1).last() == s@[i as int]);
            assert(is_digit(s@[i as int]));
        }
        let d = (s.get_char(i) as u32) - 48;
        r = r * 10 + (d as u64);
        i = i + 1;
    }
    proof {
        assert(s@.take(len as int) =~= s@);
        lemma_pow10_mono(len as nat, 9);
        lemma_pow10_small();
    }
    r
}

/// The milliseconds a fraction part denotes, to three digits.
pub open spec fn frac_ms_of(fp: Seq<char>) -> int {
    if fp.len() >= 3 {
        digits_val(fp.take(3))
    } else {
        digits_val(fp) * pow10((3 - fp.len()) as nat)
    }
}

/// Reads the milliseconds a fraction part denotes.
fn frac_millis(s: &str) -> (r: u64)
    requires
        all_digits(s@),
    ensures
        r == frac_ms_of(s@),
        r < 1000,
{
    proof {
        lemma_pow10_small();
    }
    let len = s.unicode_len();
    if len >= 3 {
        let head = s.substring_char(0, 3);
        proof {
            assert(head@ =~= s@.take(3));
            assert(all_digits(head@));
            lemma_digits_val_bound(head@);
        }
        digits_value9(head)
    } else if len == 2 {
        proof {
            lemma_digits_val_bound(s@);
        }
        digits_value9(s) * 10
    } else if len == 1 {
        proof {
            lemma_digits_val_bound(s@);
        }
        digits_value9(s) * 100
    } else {
        proof {
            assert(s@ =~= Seq::<char>::empty());
        }
        0
    }
}

/// The value, in tenths, of a decimal numeral: an integer part of one to
/// nine digits, or digits around a single point with at least one digit in
/// all — the first fractional digit supplies the tenth.
pub open spec fn value10_of(s: Seq<char>) -> Option<int> {
    match index_of_char(s, '.') {
        None => if all_digits(s) && 1 <= s.len() <= 9 {
            Some(digits_val(s) * 10)
        } else {
            None
        },
        Some(i) => {
            let ip = s.take(i);
            let fp = s.skip(i + 1);
            if all_digits(ip) && ip.len() <= 9 && all_digits(fp) && ip.len() + fp.len() > 0 {
                Some(
                    digits_val(ip) * 10 + (if fp.len() > 0 {
                        digit_val(fp[0])
                    } else {
                        0
                    }),
                )
            } else {
                None
            }
        },
    }
}

/// The milliseconds a seconds numeral denotes: an integer part of one to
/// nine digits, or digits around a single point with at least one digit in
/// all, the fraction read to three digits.
pub open spec fn seconds_ms_of(s: Seq<char>) -> Option<int> {
    match index_of_char(s, '.') {
        None => if all_digits(s) && 1 <= s.len() <= 9 {
            Some(digits_val(s) * 1000)
        } else {
            None
        },
        Some(i) => {
            let ip = s.take(i);
            let fp = s.skip(i + 1);
            if all_digits(ip) && ip.len() <= 9 && all_digits(fp) && ip.len() + fp.len() > 0 {
                Some(digits_val(ip) * 1000 + frac_ms_of(fp))
            } else {
                None
            }
        },
    }
}

/// Reads a decimal numeral in tenths.
fn parse_value10(s: &str) -> (r: Option<u64>)
    ensures
        r is Some <==> value10_of(s@) is Some,
        r is Some ==> value10_of(s@) == Some(r->0 as int),
{
    let len = s.unicode_len();
    match find_first_char(s, '.') {
        None => {
            if all_digits_exec(s) && 1 <= len && len <= 9 {
                let v = digits_value9(s);
                Some(v * 10)
            } else {
                None
            }
        },
        Some(i) => {
            let ip = s.substring_char(0, i);
            let fp = s.substring_char(i + 1, len);
            proof {
                assert(ip@ =~= s@.take(i as int));
                assert(fp@ =~= s@.skip(i as int + 1));
            }
            let ip_len = ip.unicode_len();
            let fp_len = fp.unicode_len();
            if all_digits_exec(ip) && ip_len <= 9 && all_digits_exec(fp) && ip_len + fp_len > 0 {
                let v = digits_value9(ip);
                let tenth: u64 = if fp_len > 0 {
                    proof {
                        assert(is_digit(fp@[0]));
                    }
                    ((fp.get_char(0) as u32) - 48) as u64
                } else {
                    0
                };
                Some(v * 10 + tenth)
            } else {
                None
            }
        },
    }
}

/// Reads a seconds numeral as milliseconds.
fn parse_seconds_millis(s: &str) -> (r: Option<u64>)
    ensures
        r is Some <==> seconds_ms_of(s@) is Some,
        r is Some ==> seconds_ms_of(s@) == Some(r->0 as int),
        r is Some ==> r->0 < 1000000000000,
{
    let len = s.unicode_len();
    match find_first_char(s, '.') {
        None => {
            if all_digits_exec(s) && 1 <= len && len <= 9 {
                let v = digits_value9(s);
                Some(v * 1000)
            } else {
                None
            }
        },
        Some(i) => {
            let ip = s.substring_char(0, i);
            let fp = s.substring_char(i + 1, len);
            proof {
                assert(ip@ =~= s@.take(i as int));
                assert(fp@ =~= s@.skip(i as int + 1));
            }
            let ip_len = ip.unicode_len();
            let fp_len = fp.unicode_len();
            if all_digits_exec(ip) && ip_len <= 9 && all_digits_exec(fp) && ip_len + fp_len > 0 {
                let v = digits_value9(ip);
                let f = frac_millis(fp);
                Some(v * 1000 + f)
            } else {
                None
            }
        },
    }
}

/// The string with its leading and trailing spaces and tabs removed.
pub open spec fn trim_front(s: Seq<char>) -> Seq<char>
    decreases s.len(),
{
    if s.len() > 0 && (s[0] == ' ' || s[0] == '\t') {
        trim_front(s.drop_first())
    } else {
        s
    }
}

/// The string with its trailing spaces and tabs removed.
pub open spec fn trim_back(s: Seq<char>) -> Seq<char>
    decreases s.len(),
{
    if s.len() > 0 && (s.last() == ' ' || s.last() == '\t') {
        trim_back(s.drop_last())
    } else {
        s
    }
}

/// The string without surrounding spaces and tabs.
pub open spec fn trim_spaces(s: Seq<char>) -> Seq<char> {
    trim_back(trim_front(s))
}

/// Whether the character at `i` is a space or a tab.
fn is_space_at(s: &str, i: usize) -> (r: bool)
    requires
        i < s@.len(),
    ensures
        r == (s@[i as int] == ' ' || s@[i as int] == '\t'),
{
    let c = s.get_char(i);
    c == ' ' || c == '\t'
}

/// Removes surrounding spaces and tabs.
fn trim_light(s: &str) -> (r: String)
    ensures
        r@ == trim_spaces(s@),
{
    let len = s.unicode_len();
    proof {
        assert(s@.skip(0) =~= s@);
    }
    let mut i: usize = 0;
    while i < len && is_space_at(s, i)
        invariant
            len == s@.len(),
            i <= len,
            trim_front(s@) == trim_front(s@.skip(i as int)),
        decreases len - i,
    {
        proof {
            assert(s@.skip(i as int)[0] == s@[i as int]);
            assert(s@.skip(i as int).drop_first() =~= s@.skip(i as int + 1));
        }
        i = i + 1;
    }
    proof {
        assert(s@.skip(0) =~= s@);
        if i < len {
            assert(s@.skip(i as int)[0] == s@[i as int]);
        }
        assert(trim_front(s@) == s@.skip(i as int));
    }
    let ghost t = s@.skip(i as int);
    proof {
        assert(t.take(len - i as int) =~= t);
    }
    let mut j: usize = len;
    while j > i && is_space_at(s, j - 1)
        invariant
            len == s@.len(),
            i <= j <= len,
            t == s@.skip(i as int),
            trim_back(t) == trim_back(t.take(j - i as int)),
        decreases j,
    {
        proof {
            let u = t.take(j - i as int);
            assert(u.last() == t[j - 1 - i as int]);
            assert(t[j - 1 - i as int] == s@[j - 1]);
            assert(u.drop_last() =~= t.take(j - 1 - i as int));
        }
        j = j - 1;
    }
    proof {
        assert(t.take(len - i as int) =~= t);
        if j > i {
            assert(t.take(j - i as int).last() == t[j - 1 - i as int]);
            assert(t[j - 1 - i as int] == s@[j - 1]);
        } else {
            assert(t.take(0) =~= Seq::<char>::empty());
        }
        assert(trim_back(t) == t.take(j - i as int));
        assert(t.take(j - i as int) =~= s@.subrange(i as int, j as int));
    }
    let r = s.substring_char(i, j);
    String::from_str(r)
}

/// The string with every trailing percent sign removed.
pub open spec fn strip_percents(s: Seq<char>) -> Seq<char>
    decreases s.len(),
{
    if s.len() > 0 && s.last() == '%' {
        strip_percents(s.drop_last())
    } else {
        s
    }
}

/// Removes every trailing percent sign.
fn strip_percents_exec(s: &str) -> (r: String)
    ensures
        r@ == strip_percents(s@),
{
    let len = s.unicode_len();
    proof {
        assert(s@.take(len as int) =~= s@);
    }
    let mut j: usize = len;
    while j > 0 && s.get_char(j - 1) == '%'
        invariant
            len == s@.len(),
            j <= len,
            strip_percents(s@) == strip_percents(s@.take(j as int)),
        decreases j,
    {
        proof {
            assert(s@.take(j as int).last() == s@[j - 1]);
            assert(s@.take(j as int).drop_last() =~= s@.take(j as int - 1));
        }
        j = j - 1;
    }
    proof {
        assert(s@.take(len as int) =~= s@);
        if j > 0 {
            assert(s@.take(j as int).last() == s@[j - 1]);
        } else {
            assert(s@.take(0) =~= Seq::<char>::empty());
        }
        assert(strip_percents(s@) == s@.take(j as int));
        assert(s@.take(j as int) =~= s@.subrange(0, j as int));
    }
    let r = s.substring_char(0, j);
    String::from_str(r)
}

/// The milliseconds a bracketed `hh:mm:ss.mmm` timestamp denotes: exactly
/// three colon-separated parts, hours and minutes plain digit strings of one
/// to nine digits, seconds a decimal numeral.
pub open spec fn timestamp_millis_of(ts: Seq<char>) -> Option<int> {
    match index_of_char(ts, ':') {
        None => None,
        Some(i1) => {
            let a = ts.take(i1);
            let rest = ts.skip(i1 + 1);
            match index_of_char(rest, ':') {
                None => None,
                Some(i2) => {
                    let b = rest.take(i2);
                    let c = rest.skip(i2 + 1);
                    if index_of_char(c, ':') is Some {
                        None
                    } else if all_digits(a) && 1 <= a.len() <= 9 && all_digits(b) && 1 <= b.len()
                        <= 9 {
                        match seconds_ms_of(c) {
                            None => None,
                            Some(ms) => Some(
                                (digits_val(a) * 3600 + digits_val(b) * 60) * 1000 + ms,
                            ),
                        }
                    } else {
                        None
                    }
                },
            }
        },
    }
}

/// Reads a `hh:mm:ss.mmm` timestamp as milliseconds.
pub fn parse_timestamp_millis(ts: &str) -> (r: Option<u64>)
    ensures
        r is Some <==> timestamp_millis_of(ts@) is Some,
        r is Some ==> timestamp_millis_of(ts@) == Some(r->0 as int),
{
    let len = ts.unicode_len();
    let i1 = match find_first_char(ts, ':') {
        Some(i) => i,
        None => {
            return None;
        },
    };
    let a = ts.substring_char(0, i1);
    let rest = ts.substring_char(i1 + 1, len);
    proof {
        assert(a@ =~= ts@.take(i1 as int));
        assert(rest@ =~= ts@.skip(i1 as int + 1));
    }
    let rest_len = rest.unicode_len();
    let i2 = match find_first_char(rest, ':') {
        Some(i) => i,
        None => {
            return None;
        },
    };
    let b = rest.substring_char(0, i2);
    let c = rest.substring_char(i2 + 1, rest_len);
    proof {
        assert(b@ =~= rest@.take(i2 as int));
        assert(c@ =~= rest@.skip(i2 as int + 1));
    }
    if find_first_char(c, ':').is_some() {
        return None;
    }
    let a_len = a.unicode_len();
    let b_len = b.unicode_len();
    if !(all_digits_exec(a) && 1 <= a_len && a_len <= 9 && all_digits_exec(b) && 1 <= b_len
        && b_len <= 9) {
        return None;
    }
    let av = digits_value9(a);
    let bv = digits_value9(b);
    match parse_seconds_millis(c) {
        None => None,
        Some(ms) => Some((av * 3600 + bv * 60) * 1000 + ms),
    }
}

/// The millisecond reading of the first branch: a line with `[`, `-->` and
/// `]`, whose trimmed span between the first `[` and the first `-->` is a
/// timestamp.
pub open spec fn ts_candidate(line: Seq<char>) -> Option<int> {
    if index_of_char(line, '[') is Some && index_of_seq(line, "-->"@) is Some && index_of_char(
        line,
        ']',
    ) is Some {
        let s = index_of_char(line, '[')->0;
        let a = index_of_seq(line, "-->"@)->0;
        if s + 1 <= a {
            timestamp_millis_of(trim_spaces(line.subrange(s + 1, a)))
        } else {
            None
        }
    } else {
        None
    }
}

/// The tenths reading of the second branch: a line with `[`, `]` and `%`,
/// whose span between the first `[` and the first `]`, with trailing percent
/// signs removed, is a decimal numeral.
pub open spec fn pct_candidate(line: Seq<char>) -> Option<int> {
    if index_of_char(line, '[') is Some && index_of_char(line, ']') is Some && index_of_char(
        line,
        '%',
    ) is Some {
        let s = index_of_char(line, '[')->0;
        let e = index_of_char(line, ']')->0;
        if s + 1 <= e {
            value10_of(strip_percents(line.subrange(s + 1, e)))
        } else {
            None
        }
    } else {
        None
    }
}

/// What one output line yields: the timestamp branch, then the percentage
/// branch, then the completion markers (full progress), then the
/// model-loading markers (a tenth), and otherwise nothing.
pub open spec fn parse_progress_spec(line: Seq<char>) -> Option<ProgressView> {
    if ts_candidate(line) is Some {
        let ms = ts_candidate(line)->0;
        Some(
            ProgressView {
                progress_permille: (if ms / 300 > 1000 {
                    1000
                } else {
                    ms / 300
                }) as u32,
                current_time_millis: Some(ms as u64),
                message: line,
            },
        )
    } else if pct_candidate(line) is Some {
        let v = pct_candidate(line)->0;
        Some(
            ProgressView {
                progress_permille: (if v > 0xffffffff {
                    0xffffffff
                } else {
                    v
                }) as u32,
                current_time_millis: None,
                message: line,
            },
        )
    } else if strutil::contains_seq(line, "whisper_print_timings"@) || strutil::contains_seq(
        line,
        "total time"@,
    ) {
        Some(
            ProgressView {
                progress_permille: 1000,
                current_time_millis: None,
                message: "processing complete"@,
            },
        )
    } else if strutil::contains_seq(line, "whisper_init_from_file"@) || strutil::contains_seq(
        line,
        "loading model"@,
    ) {
        Some(
            ProgressView {
                progress_permille: 100,
                current_time_millis: None,
                message: "loading model..."@,
            },
        )
    } else {
        None
    }
}

/// Parses one engine output line into a progress observation, or nothing for
/// an unrecognized line.
pub fn parse_whisper_output_line(line: &str) -> (r: Option<ProgressInfo>)
    ensures
        r is Some <==> parse_progress_spec(line@) is Some,
        r is Some ==> r->0@ == parse_progress_spec(line@)->0,
{
    // Pins the character count into `usize` range for the index sums below.
    let _line_len = line.unicode_len();
    let lb = find_first_char(line, '[');
    let arrow = find_first_sub(line, "-->");
    let rb = find_first_char(line, ']');
    if lb.is_some() && arrow.is_some() && rb.is_some() {
        let s = match lb {
            Some(v) => v,
            None => 0,
        };
        let a = match arrow {
            Some(v) => v,
            None => 0,
        };
        if s + 1 <= a {
            let part = line.substring_char(s + 1, a);
            proof {
                assert(part@ =~= line@.subrange(s as int + 1, a as int));
            }
            let trimmed = trim_light(part);
            match parse_timestamp_millis(trimmed.as_str()) {
                Some(ms) => {
                    let permille: u32 = if ms / 300 > 1000 {
                        1000
                    } else {
                        (ms / 300) as u32
                    };
                    return Some(
                        ProgressInfo {
                            progress_permille: permille,
                            current_time_millis: Some(ms),
                            message: String::from_str(line),
                        },
                    );
                },
                None => {},
            }
        }
    }
    let pct = find_first_char(line, '%');
    if lb.is_some() && rb.is_some() && pct.is_some() {
        let s = match lb {
            Some(v) => v,
            None => 0,
        };
        let e = match rb {
            Some(v) => v,
            None => 0,
        };
        if s + 1 <= e {
            let span = line.substring_char(s + 1, e);
            proof {
                assert(span@ =~= line@.subrange(s as int + 1, e as int));
            }
            let stripped = strip_percents_exec(span);
            match parse_value10(stripped.as_str()) {
                Some(v) => {
                    let permille: u32 = if v > 0xffffffff {
                        0xffffffff
                    } else {
                        v as u32
                    };
                    return Some(
                        ProgressInfo {
                            progress_permille: permille,
                            current_time_millis: None,
                            message: String::from_str(line),
                        },
                    );
                },
                None => {},
            }
        }
    }
    if strutil::str_contains(line, "whisper_print_timings") || strutil::str_contains(
        line,
        "total time",
    ) {
        return Some(
            ProgressInfo {
                progress_permille: 1000,
                current_time_millis: None,
                message: String::from_str("processing complete"),
            },
        );
    }
    if strutil::str_contains(line, "whisper_init_from_file") || strutil::str_contains(
        line,
        "loading model",
    ) {
        return Some(
            ProgressInfo {
                progress_permille: 100,
                current_time_millis: None,
                message: String::from_str("loading model..."),
            },
        );
    }
    None
}

} // verus!
