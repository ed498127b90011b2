//! Character-level string utilities shared by the whole library.
//!
//! All reasoning is done over `Seq<char>` views; executable code walks
//! strings one character at a time.

use vstd::prelude::*;

verus! {

/// ASCII-lowers a single character; every other character is unchanged.
pub open spec fn lower_char(c: char) -> char {
    if 'A' <= c && c <= 'Z' {
        ((c as u8) + 32) as char
    } else {
        c
    }
}

/// ASCII-uppers a single character; every other character is unchanged.
pub open spec fn upper_char(c: char) -> char {
    if 'a' <= c && c <= 'z' {
        ((c as u8) - 32) as char
    } else {
        c
    }
}

pub open spec fn lower_seq(s: Seq<char>) -> Seq<char> {
    s.map_values(|c: char| lower_char(c))
}

pub open spec fn upper_seq(s: Seq<char>) -> Seq<char> {
    s.map_values(|c: char| upper_char(c))
}

/// `p` occurs in `s` starting at position `i`.
pub open spec fn match_at(s: Seq<char>, p: Seq<char>, i: int) -> bool {
    0 <= i && i + p.len() <= s.len() && s.subrange(i, i + p.len()) == p
}

pub open spec fn is_prefix(s: Seq<char>, p: Seq<char>) -> bool {
    match_at(s, p, 0)
}

pub open spec fn is_suffix(s: Seq<char>, p: Seq<char>) -> bool {
    match_at(s, p, s.len() - p.len())
}

pub open spec fn contains_seq(s: Seq<char>, p: Seq<char>) -> bool {
    exists|i: int| match_at(s, p, i)
}

/// A suffix stays a suffix when the same text is appended to both sides.
pub proof fn lemma_suffix_extend(base: Seq<char>, suf: Seq<char>, add: Seq<char>)
    requires
        is_suffix(base, suf),
    ensures
        is_suffix(base + add, suf + add),
{
    let whole = base + add;
    let target = suf + add;
    assert(forall|k: int|
        0 <= k < suf.len() ==> base[base.len() - suf.len() + k] == #[trigger] suf[k]) by {
        assert(forall|k: int|
            0 <= k < suf.len() ==> #[trigger] suf[k] == base.subrange(
                base.len() - suf.len(),
                base.len() as int,
            )[k]);
    }
    assert(whole.subrange(whole.len() - target.len(), whole.len() as int) =~= target);
}

/// Relies on `String::push`: appends exactly one character.
#[verifier::external_body]
pub fn push_char(s: &mut String, c: char)
    ensures
        final(s)@ == old(s)@.push(c),
{
    s.push(c);
}

/// Copies a string into a vector of its characters.
pub fn to_char_vec(s: &str) -> (r: Vec<char>)
    ensures
        r@ == s@,
{
    let n: usize = s.unicode_len();
    let mut r: Vec<char> = Vec::new();
    let mut i: usize = 0;
    while i < n
        invariant
            n == s@.len(),
            i <= n,
            r@ == s@.subrange(0, i as int),
        decreases n - i,
    {
        r.push(s.get_char(i));
        i = i + 1;
        proof {
            assert(r@ =~= s@.subrange(0, i as int));
        }
    }
    proof {
        assert(r@ =~= s@);
    }
    r
}

/// Builds a string out of a vector of characters.
pub fn string_of_chars(v: &Vec<char>) -> (r: String)
    ensures
        r@ == v@,
{
    let mut r = String::new();
    let mut i: usize = 0;
    while i < v.len()
        invariant
            i <= v@.len(),
            r@ == v@.subrange(0, i as int),
        decreases v@.len() - i,
    {
        push_char(&mut r, v[i]);
        i = i + 1;
        proof {
            assert(r@ =~= v@.subrange(0, i as int));
        }
    }
    proof {
        assert(r@ =~= v@);
    }
    r
}

/// Character-for-character string equality.
pub fn str_eq(a: &str, b: &str) -> (r: bool)
    ensures
        r == (a@ == b@),
{
    let na: usize = a.unicode_len();
    let nb: usize = b.unicode_len();
    if na != nb {
        proof {
            assert(a@ != b@) by {
                assert(a@.len() != b@.len());
            }
        }
        return false;
    }
    let mut i: usize = 0;
    while i < na
        invariant
            na == a@.len(),
            na == b@.len(),
            i <= na,
            forall|j: int| 0 <= j < i ==> a@[j] == b@[j],
        decreases na - i,
    {
        if a.get_char(i) != b.get_char(i) {
            proof {
                assert(a@[i as int] != b@[i as int]);
            }
            return false;
        }
        i = i + 1;
    }
    proof {
        assert(a@ =~= b@);
    }
    true
}

/// ASCII-lowercases a string.
pub fn lower_str(s: &str) -> (r: String)
    ensures
        r@ == lower_seq(s@),
{
    let n: usize = s.unicode_len();
    let mut r = String::new();
    let mut i: usize = 0;
    while i < n
        invariant
            n == s@.len(),
            i <= n,
            r@ == lower_seq(s@).subrange(0, i as int),
        decreases n - i,
    {
        let c = s.get_char(i);
        let lc: char = if 'A' <= c && c <= 'Z' {
            ((c as u8) + 32) as char
        } else {
            c
        };
        proof {
            assert(lc == lower_char(s@[i as int]));
        }
        push_char(&mut r, lc);
        i = i + 1;
        proof {
            assert(r@ =~= lower_seq(s@).subrange(0, i as int));
        }
    }
    proof {
        assert(r@ =~= lower_seq(s@));
    }
    r
}

/// ASCII-uppercases a string.
pub fn upper_str(s: &str) -> (r: String)
    ensures
        r@ == upper_seq(s@),
{
    let n: usize = s.unicode_len();
    let mut r = String::new();
    let mut i: usize = 0;
    while i < n
        invariant
            n == s@.len(),
            i <= n,
            r@ == upper_seq(s@).subrange(0, i as int),
        decreases n - i,
    {
        let c = s.get_char(i);
        let uc: char = if 'a' <= c && c <= 'z' {
            ((c as u8) - 32) as char
        } else {
            c
        };
        proof {
            assert(uc == upper_char(s@[i as int]));
        }
        push_char(&mut r, uc);
        i = i + 1;
        proof {
            assert(r@ =~= upper_seq(s@).subrange(0, i as int));
        }
    }
    proof {
        assert(r@ =~= upper_seq(s@));
    }
    r
}

/// Does `p` occur in `s` at exactly position `i`?  (Executable mirror of
/// `match_at` over character vectors.)
pub fn match_at_exec(s: &Vec<char>, p: &Vec<char>, i: usize) -> (r: bool)
    requires
        i + p@.len() <= s@.len(),
    ensures
        r == match_at(s@, p@, i as int),
{
    let sn: usize = s.len();
    let mut j: usize = 0;
    while j < p.len()
        invariant
            sn == s@.len(),
            i + p@.len() <= s@.len(),
            j <= p@.len(),
            forall|k: int| 0 <= k < j ==> s@[i + k] == p@[k],
        decreases p@.len() - j,
    {
        if s[i + j] != p[j] {
            proof {
                assert(s@.subrange(i as int, i + p@.len()) != p@) by {
                    assert(s@.subrange(i as int, i + p@.len())[j as int] != p@[j as int]);
                }
            }
            return false;
        }
        j = j + 1;
    }
    proof {
        assert(s@.subrange(i as int, i + p@.len()) =~= p@);
    }
    true
}

/// Leftmost occurrence of `p` in `s`, if any.
pub fn find_sub(s: &Vec<char>, p: &Vec<char>) -> (r: Option<usize>)
    ensures
        match r {
            Some(i) => match_at(s@, p@, i as int) && forall|k: int|
                0 <= k < i ==> !match_at(s@, p@, k),
            None => !contains_seq(s@, p@),
        },
{
    if p.len() > s.len() {
        return None;
    }
    if p.len() == 0 {
        proof {
            assert(match_at(s@, p@, 0)) by {
                assert(s@.subrange(0, 0) =~= p@);
            }
        }
        return Some(0);
    }
    let last: usize = s.len() - p.len();
    let mut i: usize = 0;
    while i <= last
        invariant
            1 <= p@.len() <= s@.len(),
            s@.len() <= usize::MAX,
            last == s@.len() - p@.len(),
            i <= last + 1,
            forall|k: int| 0 <= k < i ==> !match_at(s@, p@, k),
        decreases last - i + 1,
    {
        if match_at_exec(s, p, i) {
            return Some(i);
        }
        i = i + 1;
    }
    proof {
        assert(forall|k: int| match_at(s@, p@, k) ==> 0 <= k <= last);
    }
    None
}

/// Rightmost occurrence of the character `c` in `s`, if any.
pub fn rfind_char(s: &Vec<char>, c: char) -> (r: Option<usize>)
    ensures
        match r {
            Some(i) => i < s@.len() && s@[i as int] == c && forall|k: int|
                i < k < s@.len() ==> s@[k] != c,
            None => forall|k: int| 0 <= k < s@.len() ==> s@[k] != c,
        },
{
    let mut i: usize = s.len();
    while i > 0
        invariant
            i <= s@.len(),
            forall|k: int| i <= k < s@.len() ==> s@[k] != c,
        decreases i,
    {
        i = i - 1;
        if s[i] == c {
            return Some(i);
        }
    }
    None
}

/// Does `s` end with the suffix `p`?
pub fn ends_with_str(s: &str, p: &str) -> (r: bool)
    ensures
        r == is_suffix(s@, p@),
{
    let sv = to_char_vec(s);
    let pv = to_char_vec(p);
    if pv.len() > sv.len() {
        return false;
    }
    match_at_exec(&sv, &pv, sv.len() - pv.len())
}

/// Does `s` start with the prefix `p`?
pub fn starts_with_str(s: &str, p: &str) -> (r: bool)
    ensures
        r == is_prefix(s@, p@),
{
    let sv = to_char_vec(s);
    let pv = to_char_vec(p);
    if pv.len() > sv.len() {
        return false;
    }
    match_at_exec(&sv, &pv, 0)
}

/// Does `s` contain `p` anywhere?
pub fn contains_str(s: &str, p: &str) -> (r: bool)
    ensures
        r == contains_seq(s@, p@),
{
    let sv = to_char_vec(s);
    let pv = to_char_vec(p);
    match find_sub(&sv, &pv) {
        Some(_) => true,
        None => false,
    }
}


/// The decimal digit character for a value 0..=9.
pub open spec fn digit_char(d: int) -> char {
    ((48 + d) as u8) as char
}

/// Decimal representation of a natural number, most significant digit first.
pub open spec fn dec_digits(n: nat) -> Seq<char>
    decreases n,
{
    if n < 10 {
        seq![digit_char(n as int)]
    } else {
        dec_digits(n / 10).push(digit_char((n % 10) as int))
    }
}

/// Renders a number in decimal.
pub fn u64_to_dec_string(n: u64) -> (r: String)
    ensures
        r@ == dec_digits(n as nat),
    decreases n,
{
    if n < 10 {
        let mut s = String::new();
        push_char(&mut s, ((48 + n) as u8) as char);
        s
    } else {
        let mut s = u64_to_dec_string(n / 10);
        push_char(&mut s, (48 + (n % 10) as u8) as char);
        s
    }
}

/// `s` with every trailing `c` removed.
pub open spec fn trim_trailing(s: Seq<char>, c: char) -> Seq<char>
    decreases s.len(),
{
    if s.len() > 0 && s.last() == c {
        trim_trailing(s.drop_last(), c)
    } else {
        s
    }
}

/// `s` with every leading `c` removed.
pub open spec fn trim_leading(s: Seq<char>, c: char) -> Seq<char>
    decreases s.len(),
{
    if s.len() > 0 && s.first() == c {
        trim_leading(s.drop_first(), c)
    } else {
        s
    }
}

pub fn trim_trailing_char<'a>(s: &'a str, c: char) -> (r: &'a str)
    ensures
        r@ == trim_trailing(s@, c),
{
    let n: usize = s.unicode_len();
    proof {
        assert(s@.subrange(0, n as int) =~= s@);
    }
    let mut cut: usize = n;
    while cut > 0 && s.get_char(cut - 1) == c
        invariant
            n == s@.len(),
            cut <= n,
            trim_trailing(s@, c) == trim_trailing(s@.subrange(0, cut as int), c),
        decreases cut,
    {
        proof {
            assert(s@.subrange(0, cut as int).drop_last() =~= s@.subrange(0, cut - 1int));
        }
        cut = cut - 1;
    }
    proof {
        if cut > 0 {
            assert(s@.subrange(0, cut as int).last() != c);
        }
        assert(trim_trailing(s@.subrange(0, cut as int), c) == s@.subrange(0, cut as int));
    }
    s.substring_char(0, cut)
}

pub fn trim_leading_char<'a>(s: &'a str, c: char) -> (r: &'a str)
    ensures
        r@ == trim_leading(s@, c),
{
    let n: usize = s.unicode_len();
    proof {
        assert(s@.subrange(0, n as int) =~= s@);
    }
    let mut cut: usize = 0;
    while cut < n && s.get_char(cut) == c
        invariant
            n == s@.len(),
            cut <= n,
            trim_leading(s@, c) == trim_leading(s@.subrange(cut as int, n as int), c),
        decreases n - cut,
    {
        proof {
            assert(s@.subrange(cut as int, n as int).drop_first() =~= s@.subrange(
                cut + 1int,
                n as int,
            ));
        }
        cut = cut + 1;
    }
    proof {
        let rest = s@.subrange(cut as int, n as int);
        if cut < n {
            assert(rest.first() != c);
        }
        assert(trim_leading(rest, c) == rest);
    }
    s.substring_char(cut, n)
}


/// Decimal representation of an integer, with a leading minus sign when
/// negative.
pub open spec fn dec_int(n: int) -> Seq<char> {
    if n >= 0 {
        dec_digits(n as nat)
    } else {
        seq!['-'] + dec_digits((-n) as nat)
    }
}

/// Renders a signed number in decimal.
pub fn i64_to_dec_string(n: i64) -> (r: String)
    ensures
        r@ == dec_int(n as int),
{
    if n >= 0 {
        u64_to_dec_string(n as u64)
    } else {
        let mag: u64 = (-(n as i128)) as u64;
        let digits = u64_to_dec_string(mag);
        let mut r = String::new();
        push_char(&mut r, '-');
        r.append(digits.as_str());
        proof {
            assert(r@ =~= dec_int(n as int));
        }
        r
    }
}


/// Position of the first occurrence of `p` in `s` at or after `i`.
pub open spec fn find_from(s: Seq<char>, p: Seq<char>, i: int) -> Option<int>
    decreases s.len() - i + 1,
{
    if i < 0 || i + p.len() > s.len() {
        None
    } else if match_at(s, p, i) {
        Some(i)
    } else {
        find_from(s, p, i + 1)
    }
}

/// Position of the first occurrence of the character `c` in `s` at or after
/// `i`.
pub open spec fn find_char_from(s: Seq<char>, c: char, i: int) -> Option<int>
    decreases s.len() - i + 1,
{
    if i < 0 || i >= s.len() {
        None
    } else if s[i] == c {
        Some(i)
    } else {
        find_char_from(s, c, i + 1)
    }
}

/// `s` up to (excluding) its first `c`, or all of `s` when there is none.
pub open spec fn take_until_char(s: Seq<char>, c: char) -> Seq<char> {
    match find_char_from(s, c, 0) {
        Some(k) => s.take(k),
        None => s,
    }
}

pub proof fn lemma_find_from_found(s: Seq<char>, p: Seq<char>, j: int, m: int)
    requires
        0 <= j <= m,
        match_at(s, p, m),
        forall|k: int| j <= k < m ==> !match_at(s, p, k),
    ensures
        find_from(s, p, j) == Some(m),
    decreases m - j,
{
    if j < m {
        lemma_find_from_found(s, p, j + 1, m);
    }
}

pub proof fn lemma_find_from_none(s: Seq<char>, p: Seq<char>, j: int)
    requires
        0 <= j,
        forall|k: int| j <= k ==> !match_at(s, p, k),
    ensures
        find_from(s, p, j) is None,
    decreases s.len() - j + 1,
{
    if !(j + p.len() > s.len()) {
        lemma_find_from_none(s, p, j + 1);
    }
}

pub proof fn lemma_find_char_found(s: Seq<char>, c: char, j: int, m: int)
    requires
        0 <= j <= m < s.len(),
        s[m] == c,
        forall|k: int| j <= k < m ==> s[k] != c,
    ensures
        find_char_from(s, c, j) == Some(m),
    decreases m - j,
{
    if j < m {
        lemma_find_char_found(s, c, j + 1, m);
    }
}

/// Where the first occurrence search lands: on a position carrying `c`
/// with none before it, or nowhere when `c` does not occur.
pub proof fn lemma_find_char_props(s: Seq<char>, c: char, j: int)
    requires
        0 <= j,
    ensures
        match find_char_from(s, c, j) {
            Some(k) => j <= k < s.len() && s[k] == c && (forall|m: int| j <= m < k ==> s[m] != c),
            None => forall|m: int| j <= m < s.len() ==> s[m] != c,
        },
    decreases s.len() - j + 1,
{
    if j < s.len() && s[j] != c {
        lemma_find_char_props(s, c, j + 1);
    }
}

pub proof fn lemma_find_char_none(s: Seq<char>, c: char, j: int)
    requires
        0 <= j,
        forall|k: int| j <= k < s.len() ==> s[k] != c,
    ensures
        find_char_from(s, c, j) is None,
    decreases s.len() - j + 1,
{
    if j < s.len() {
        lemma_find_char_none(s, c, j + 1);
    }
}

/// Position of the last occurrence of `c` in `s`.
pub open spec fn rfind_char_spec(s: Seq<char>, c: char) -> Option<int>
    decreases s.len(),
{
    if s.len() == 0 {
        None
    } else if s.last() == c {
        Some(s.len() - 1)
    } else {
        rfind_char_spec(s.drop_last(), c)
    }
}

pub proof fn lemma_rfind_props(s: Seq<char>, c: char)
    ensures
        match rfind_char_spec(s, c) {
            Some(k) => 0 <= k < s.len() && s[k] == c && (forall|m: int|
                k < m < s.len() ==> s[m] != c),
            None => forall|m: int| 0 <= m < s.len() ==> s[m] != c,
        },
    decreases s.len(),
{
    if s.len() > 0 && s.last() != c {
        lemma_rfind_props(s.drop_last(), c);
        let d = s.drop_last();
        match rfind_char_spec(d, c) {
            Some(k) => {
                assert(s[k] == d[k]);
                assert forall|m: int| k < m < s.len() implies s[m] != c by {
                    if m < s.len() - 1 {
                        assert(s[m] == d[m]);
                    }
                }
            },
            None => {
                assert forall|m: int| 0 <= m < s.len() implies s[m] != c by {
                    if m < s.len() - 1 {
                        assert(s[m] == d[m]);
                    }
                }
            },
        }
    }
}

/// A decimal digit.
pub open spec fn is_digit(c: char) -> bool {
    '0' <= c && c <= '9'
}

pub open spec fn all_digits(s: Seq<char>) -> bool {
    forall|i: int| 0 <= i < s.len() ==> is_digit(#[trigger] s[i])
}

/// The number a digit string denotes.
pub open spec fn dec_val(s: Seq<char>) -> int
    decreases s.len(),
{
    if s.len() == 0 {
        0
    } else {
        dec_val(s.drop_last()) * 10 + (s.last() as int - 48)
    }
}

pub proof fn lemma_dec_val_nonneg(s: Seq<char>)
    requires
        all_digits(s),
    ensures
        dec_val(s) >= 0,
    decreases s.len(),
{
    if s.len() > 0 {
        lemma_dec_val_nonneg(s.drop_last());
    }
}

/// Reading more digits never shrinks the value.
pub proof fn lemma_dec_val_prefix_le(s: Seq<char>, k: int)
    requires
        all_digits(s),
        0 <= k <= s.len(),
    ensures
        dec_val(s.take(k)) <= dec_val(s),
    decreases s.len() - k,
{
    if k < s.len() {
        lemma_dec_val_prefix_le(s, k + 1);
        let t = s.take(k + 1);
        assert(t.drop_last() =~= s.take(k));
        assert(all_digits(s.take(k))) by {
            assert(forall|i: int| 0 <= i < k ==> s.take(k)[i] == s[i]);
        }
        lemma_dec_val_nonneg(s.take(k));
        assert(dec_val(t) == dec_val(s.take(k)) * 10 + (s[k] as int - 48));
        assert(dec_val(s.take(k)) * 10 >= dec_val(s.take(k))) by (nonlinear_arith)
            requires dec_val(s.take(k)) >= 0;
    } else {
        assert(s.take(k) =~= s);
    }
}

/// The digits of a number literal: an optional leading plus sign is not
/// part of them.
pub open spec fn sign_stripped(s: Seq<char>) -> Seq<char> {
    if s.len() > 0 && s.first() == '+' {
        s.drop_first()
    } else {
        s
    }
}

pub open spec fn parse_digits(body: Seq<char>) -> Option<u16> {
    if body.len() > 0 && all_digits(body) && dec_val(body) <= 65535 {
        Some(dec_val(body) as u16)
    } else {
        None
    }
}

/// What `str::parse::<u16>` accepts: an optional plus sign, then one or
/// more digits, denoting a value of at most 65535.
pub open spec fn parse_u16_spec(s: Seq<char>) -> Option<u16> {
    parse_digits(sign_stripped(s))
}

/// Parses a decimal port number.
pub fn parse_u16(v: &Vec<char>) -> (r: Option<u16>)
    ensures
        r == parse_u16_spec(v@),
{
    let n: usize = v.len();
    let start: usize = if n > 0 && v[0] == '+' {
        1
    } else {
        0
    };
    let ghost body = sign_stripped(v@);
    proof {
        assert(body =~= v@.subrange(start as int, n as int));
    }
    if start >= n {
        return None;
    }
    let mut acc: u32 = 0;
    let mut i: usize = start;
    while i < n
        invariant
            start <= i <= n,
            n == v@.len(),
            body == sign_stripped(v@),
            body == v@.subrange(start as int, n as int),
            all_digits(v@.subrange(start as int, i as int)),
            acc == dec_val(v@.subrange(start as int, i as int)),
            acc <= 65535,
        decreases n - i,
    {
        let c = v[i];
        if !(c >= '0' && c <= '9') {
            proof {
                assert(body[i - start] == c);
                assert(!is_digit(body[i - start]));
                assert(!all_digits(body));
            }
            return None;
        }
        let d: u32 = (c as u32) - 48;
        let next: u32 = acc * 10 + d;
        proof {
            assert(v@.subrange(start as int, i + 1int).drop_last() =~= v@.subrange(
                start as int,
                i as int,
            ));
            assert(v@.subrange(start as int, i + 1int).last() == c);
            assert(dec_val(v@.subrange(start as int, i + 1int)) == next);
            assert(all_digits(v@.subrange(start as int, i + 1int))) by {
                assert(forall|k: int|
                    0 <= k < i + 1 - start ==> #[trigger] v@.subrange(start as int, i + 1int)[k]
                        == v@[start + k]);
            }
        }
        if next > 65535 {
            proof {
                assert(body.take(i + 1 - start) =~= v@.subrange(start as int, i + 1int));
                if all_digits(body) {
                    lemma_dec_val_prefix_le(body, i + 1 - start);
                    assert(dec_val(body) >= next);
                }
            }
            return None;
        }
        acc = next;
        i = i + 1;
    }
    proof {
        assert(v@.subrange(start as int, n as int) =~= body);
    }
    Some(acc as u16)
}

/// An ASCII whitespace character.
pub open spec fn is_ws(c: char) -> bool {
    c == ' ' || c == '\t' || c == '\n' || c == '\r'
}

/// `s` with leading whitespace removed.
pub open spec fn trim_leading_ws(s: Seq<char>) -> Seq<char>
    decreases s.len(),
{
    if s.len() > 0 && is_ws(s.first()) {
        trim_leading_ws(s.drop_first())
    } else {
        s
    }
}

/// `s` with trailing whitespace removed.
pub open spec fn trim_trailing_ws(s: Seq<char>) -> Seq<char>
    decreases s.len(),
{
    if s.len() > 0 && is_ws(s.last()) {
        trim_trailing_ws(s.drop_last())
    } else {
        s
    }
}

/// `s` with whitespace removed at both ends.
pub open spec fn trim_ws(s: Seq<char>) -> Seq<char> {
    trim_trailing_ws(trim_leading_ws(s))
}

fn is_ws_exec(c: char) -> (r: bool)
    ensures
        r == is_ws(c),
{
    c == ' ' || c == '\t' || c == '\n' || c == '\r'
}

/// Removes whitespace at both ends of a character vector.
pub fn trim_ws_exec(v: &Vec<char>) -> (r: Vec<char>)
    ensures
        r@ == trim_ws(v@),
{
    let n: usize = v.len();
    proof {
        assert(v@.subrange(0, n as int) =~= v@);
    }
    let mut from: usize = 0;
    while from < n && is_ws_exec(v[from])
        invariant
            n == v@.len(),
            from <= n,
            trim_leading_ws(v@) == trim_leading_ws(v@.subrange(from as int, n as int)),
        decreases n - from,
    {
        proof {
            assert(v@.subrange(from as int, n as int).drop_first() =~= v@.subrange(
                from + 1int,
                n as int,
            ));
        }
        from = from + 1;
    }
    proof {
        let rest = v@.subrange(from as int, n as int);
        assert(trim_leading_ws(rest) == rest);
    }
    let mut to: usize = n;
    while to > from && is_ws_exec(v[to - 1])
        invariant
            n == v@.len(),
            from <= to <= n,
            trim_leading_ws(v@) == v@.subrange(from as int, n as int),
            trim_trailing_ws(v@.subrange(from as int, n as int)) == trim_trailing_ws(
                v@.subrange(from as int, to as int),
            ),
        decreases to,
    {
        proof {
            assert(v@.subrange(from as int, to as int).drop_last() =~= v@.subrange(
                from as int,
                to - 1int,
            ));
        }
        to = to - 1;
    }
    proof {
        let core = v@.subrange(from as int, to as int);
        if to > from {
            assert(core.last() != ' ' && core.last() != '\t' && core.last() != '\n'
                && core.last() != '\r');
        }
        assert(trim_trailing_ws(core) == core);
    }
    subvec(v, from, to)
}

/// Copies `v[from..to]` out.
pub fn subvec(v: &Vec<char>, from: usize, to: usize) -> (r: Vec<char>)
    requires
        from <= to <= v@.len(),
    ensures
        r@ == v@.subrange(from as int, to as int),
{
    let mut r: Vec<char> = Vec::new();
    let mut i: usize = from;
    while i < to
        invariant
            from <= i <= to <= v@.len(),
            r@ == v@.subrange(from as int, i as int),
        decreases to - i,
    {
        r.push(v[i]);
        i = i + 1;
        proof {
            assert(r@ =~= v@.subrange(from as int, i as int));
        }
    }
    r
}

/// Copies `v` up to (excluding) its first `c`.
pub fn take_until_char_exec(v: &Vec<char>, c: char) -> (r: Vec<char>)
    ensures
        r@ == take_until_char(v@, c),
{
    let n: usize = v.len();
    let mut i: usize = 0;
    while i < n && v[i] != c
        invariant
            n == v@.len(),
            i <= n,
            forall|k: int| 0 <= k < i ==> v@[k] != c,
        decreases n - i,
    {
        i = i + 1;
    }
    proof {
        if i < n {
            lemma_find_char_found(v@, c, 0, i as int);
        } else {
            lemma_find_char_none(v@, c, 0);
            assert(v@.subrange(0, i as int) =~= v@);
        }
    }
    subvec(v, 0, i)
}


/// Removes leading whitespace of a character vector.
pub fn trim_leading_ws_exec(v: &Vec<char>) -> (r: Vec<char>)
    ensures
        r@ == trim_leading_ws(v@),
{
    let n: usize = v.len();
    proof {
        assert(v@.subrange(0, n as int) =~= v@);
    }
    let mut from: usize = 0;
    while from < n && is_ws_exec(v[from])
        invariant
            n == v@.len(),
            from <= n,
            trim_leading_ws(v@) == trim_leading_ws(v@.subrange(from as int, n as int)),
        decreases n - from,
    {
        proof {
            assert(v@.subrange(from as int, n as int).drop_first() =~= v@.subrange(
                from + 1int,
                n as int,
            ));
        }
        from = from + 1;
    }
    proof {
        let rest = v@.subrange(from as int, n as int);
        assert(trim_leading_ws(rest) == rest);
    }
    subvec(v, from, n)
}


/// The whitespace-separated words of `s`: `i` is the next character to
/// read, `cur` the word being accumulated.
pub open spec fn spec_ws_tokens(s: Seq<char>, i: int, cur: Seq<char>) -> Seq<Seq<char>>
    decreases s.len() - i + 1,
{
    if i < 0 || i >= s.len() {
        if cur.len() > 0 {
            seq![cur]
        } else {
            Seq::empty()
        }
    } else if is_ws(s[i]) {
        if cur.len() > 0 {
            seq![cur] + spec_ws_tokens(s, i + 1, Seq::empty())
        } else {
            spec_ws_tokens(s, i + 1, Seq::empty())
        }
    } else {
        spec_ws_tokens(s, i + 1, cur.push(s[i]))
    }
}

/// Splits a string into its whitespace-separated words.
pub fn ws_tokens_exec(s: &str) -> (r: Vec<String>)
    ensures
        r.deep_view() == spec_ws_tokens(s@, 0, Seq::empty()),
{
    let n: usize = s.unicode_len();
    let mut out: Vec<String> = Vec::new();
    let mut cur = String::new();
    let mut i: usize = 0;
    while i < n
        invariant
            n == s@.len(),
            i <= n,
            spec_ws_tokens(s@, 0, Seq::empty()) == out.deep_view() + spec_ws_tokens(
                s@,
                i as int,
                cur@,
            ),
        decreases n - i,
    {
        let ghost pre_out = out.deep_view();
        let ghost pre_cur = cur@;
        let c = s.get_char(i);
        if c == ' ' || c == '\t' || c == '\n' || c == '\r' {
            if cur.as_str().unicode_len() > 0 {
                out.push(cur);
                cur = String::new();
                proof {
                    assert(out.deep_view() =~= pre_out.push(pre_cur));
                    assert(pre_out + (seq![pre_cur] + spec_ws_tokens(s@, i + 1, Seq::empty()))
                        =~= out.deep_view() + spec_ws_tokens(s@, i + 1, Seq::empty()));
                }
            } else {
                proof {
                    assert(cur@ =~= Seq::<char>::empty());
                }
            }
        } else {
            push_char(&mut cur, c);
        }
        i = i + 1;
    }
    if cur.as_str().unicode_len() > 0 {
        let ghost pre_out = out.deep_view();
        let ghost pre_cur = cur@;
        out.push(cur);
        proof {
            assert(out.deep_view() =~= pre_out.push(pre_cur));
            assert(pre_out + seq![pre_cur] =~= out.deep_view());
        }
    }
    proof {
        assert(out.deep_view() + Seq::<Seq<char>>::empty() =~= out.deep_view());
    }
    out
}

/// The words joined on single spaces; `acc` carries what is joined so far.
pub open spec fn spec_join_tokens(parts: Seq<Seq<char>>, i: int, acc: Seq<char>) -> Seq<char>
    decreases parts.len() - i + 1,
{
    if i < 0 || i >= parts.len() {
        acc
    } else if i == 0 {
        spec_join_tokens(parts, 1, parts[0])
    } else {
        spec_join_tokens(parts, i + 1, acc.push(' ') + parts[i])
    }
}

/// Joins words on single spaces.
pub fn join_tokens(parts: &Vec<String>) -> (r: String)
    ensures
        r@ == spec_join_tokens(parts.deep_view(), 0, Seq::empty()),
{
    let ghost dv = parts.deep_view();
    let mut r = String::new();
    let mut i: usize = 0;
    while i < parts.len()
        invariant
            i <= parts@.len(),
            dv == parts.deep_view(),
            dv.len() == parts@.len(),
            spec_join_tokens(dv, 0, Seq::empty()) == spec_join_tokens(dv, i as int, r@),
            i == 0 ==> r@ == Seq::<char>::empty(),
        decreases parts@.len() - i,
    {
        proof {
            assert(dv[i as int] == parts@[i as int]@);
        }
        if i == 0 {
            r = parts[0].clone();
        } else {
            push_char(&mut r, ' ');
            r.append(parts[i].as_str());
        }
        i = i + 1;
    }
    r
}

/// Finds a word among the split words of a vector.
pub fn tokens_contain(parts: &Vec<String>, word: &str) -> (r: bool)
    ensures
        r == parts.deep_view().contains(word@),
{
    let ghost dv = parts.deep_view();
    let mut i: usize = 0;
    while i < parts.len()
        invariant
            i <= parts@.len(),
            dv == parts.deep_view(),
            dv.len() == parts@.len(),
            forall|j: int| 0 <= j < i ==> dv[j] != word@,
        decreases parts@.len() - i,
    {
        proof {
            assert(dv[i as int] == parts@[i as int]@);
        }
        if str_eq(parts[i].as_str(), word) {
            proof {
                assert(dv.contains(word@)) by {
                    assert(dv[i as int] == word@);
                }
            }
            return true;
        }
        i = i + 1;
    }
    proof {
        if dv.contains(word@) {
            let j = choose|j: int| 0 <= j < dv.len() && dv[j] == word@;
            assert(dv[j] != word@);
        }
    }
    false
}

} // verus!
