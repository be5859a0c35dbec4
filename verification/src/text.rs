//! Character-level helpers shared by the phraseology, date and element parsers.

use vstd::prelude::*;
use vstd::string::*;
use vstd::utf8::{decode_utf8, is_char_boundary, valid_utf8};

verus! {

broadcast use {
    vstd::utf8::encode_utf8_valid_utf8,
    vstd::utf8::encode_utf8_decode_utf8,
    vstd::utf8::is_char_boundary_start_end_of_seq,
    vstd::utf8::valid_utf8_split,
};

/// The words of `ws` joined by `sep`.
pub open spec fn join_words(ws: Seq<Seq<char>>, sep: Seq<char>) -> Seq<char>
    decreases ws.len(),
{
    if ws.len() == 0 {
        Seq::empty()
    } else if ws.len() == 1 {
        ws[0]
    } else {
        join_words(ws.drop_last(), sep) + sep + ws.last()
    }
}

pub proof fn lemma_join_push(ws: Seq<Seq<char>>, w: Seq<char>, sep: Seq<char>)
    ensures
        join_words(ws.push(w), sep) == (if ws.len() == 0 {
            w
        } else {
            join_words(ws, sep) + sep + w
        }),
{
    assert(ws.push(w).drop_last() =~= ws);
}

/// True for the ASCII decimal digits, the only characters `char::to_digit(10)` accepts.
pub open spec fn is_digit(c: char) -> bool {
    '0' <= c && c <= '9'
}

/// Value of an ASCII decimal digit.
pub open spec fn digit_value(c: char) -> nat {
    (c as nat - '0' as nat) as nat
}

/// The character of a decimal digit.
pub open spec fn digit_char(d: nat) -> char {
    (d + '0' as nat) as char
}

/// Decimal representation of a natural number, without leading zeros.
pub open spec fn decimal(n: nat) -> Seq<char>
    decreases n,
{
    if n < 10 {
        seq![digit_char(n)]
    } else {
        decimal(n / 10).push(digit_char(n % 10))
    }
}

/// `s` preceded by zeros up to `width` characters.
pub open spec fn zero_padded(s: Seq<char>, width: nat) -> Seq<char> {
    if s.len() >= width {
        s
    } else {
        Seq::new((width - s.len()) as nat, |i: int| '0') + s
    }
}

/// Decimal representation of an integer, with a leading '-' when negative.
pub open spec fn signed_decimal(n: int) -> Seq<char> {
    if n < 0 {
        seq!['-'] + decimal((-n) as nat)
    } else {
        decimal(n as nat)
    }
}

/// The one-character string of a decimal digit.
pub fn digit_str(d: u64) -> (r: &'static str)
    requires
        d < 10,
    ensures
        r@ == seq![digit_char(d as nat)],
{
    proof {
        reveal_strlit("0");
        reveal_strlit("1");
        reveal_strlit("2");
        reveal_strlit("3");
        reveal_strlit("4");
        reveal_strlit("5");
        reveal_strlit("6");
        reveal_strlit("7");
        reveal_strlit("8");
        reveal_strlit("9");
    }
    match d {
        0 => "0",
        1 => "1",
        2 => "2",
        3 => "3",
        4 => "4",
        5 => "5",
        6 => "6",
        7 => "7",
        8 => "8",
        _ => "9",
    }
}

/// Decimal representation of `n`, as `format!("{}", n)` writes it.
pub fn u64_to_decimal(n: u64) -> (r: String)
    ensures
        r@ == decimal(n as nat),
    decreases n,
{
    if n < 10 {
        String::from_str(digit_str(n))
    } else {
        let mut s = u64_to_decimal(n / 10);
        s.append(digit_str(n % 10));
        s
    }
}

/// Decimal representation of `n`, as `format!("{}", n)` writes it.
pub fn i64_to_decimal(n: i64) -> (r: String)
    ensures
        r@ == signed_decimal(n as int),
{
    if n < 0 {
        let mag: u64 = if n == i64::MIN {
            9223372036854775808u64
        } else {
            (-n) as u64
        };
        let mut s = String::from_str("-");
        proof {
            reveal_strlit("-");
        }
        let d = u64_to_decimal(mag);
        s.append(d.as_str());
        s
    } else {
        u64_to_decimal(n as u64)
    }
}

/// The decimal of `n`, zero-padded to `width` characters, as `format!("{:0w$}", n)` writes it.
pub fn padded_decimal(n: u64, width: usize) -> (r: String)
    ensures
        r@ == zero_padded(decimal(n as nat), width as nat),
{
    let d = u64_to_decimal(n);
    let k = d.as_str().unicode_len();
    let mut p = String::new();
    let mut j: usize = k;
    while j < width
        invariant
            k == d@.len(),
            k <= j,
            j <= width || k > width,
            k < width ==> p@ == Seq::new((j - k) as nat, |i: int| '0'),
            k >= width ==> p@.len() == 0,
        decreases width - j,
    {
        p.append("0");
        proof {
            reveal_strlit("0");
            assert(p@ =~= Seq::new((j + 1 - k) as nat, |i: int| '0'));
        }
        j = j + 1;
    }
    p.append(d.as_str());
    proof {
        if k >= width {
            assert(p@ =~= d@);
        } else {
            assert(p@ =~= Seq::new((width - k) as nat, |i: int| '0') + d@);
        }
    }
    p
}

/// Index of the first `c` in `t`, or `t.len()` when there is none.
pub open spec fn first_index(t: Seq<char>, c: char) -> int
    decreases t.len(),
{
    if t.len() == 0 {
        0
    } else if t[0] == c {
        0
    } else {
        1 + first_index(t.drop_first(), c)
    }
}

pub proof fn lemma_first_index_range(t: Seq<char>, c: char)
    ensures
        0 <= first_index(t, c) <= t.len(),
        first_index(t, c) < t.len() ==> t[first_index(t, c)] == c,
    decreases t.len(),
{
    if t.len() > 0 && t[0] != c {
        lemma_first_index_range(t.drop_first(), c);
    }
}

pub proof fn lemma_first_index(t: Seq<char>, c: char, i: int)
    requires
        0 <= i <= t.len(),
        forall|j: int| 0 <= j < i ==> t[j] != c,
        i == t.len() || t[i] == c,
    ensures
        first_index(t, c) == i,
    decreases i,
{
    if i > 0 {
        lemma_first_index(t.drop_first(), c, i - 1);
    }
}

/// What comes before the first '.' of `t` (all of `t` when it has none).
pub open spec fn first_part(t: Seq<char>) -> Seq<char> {
    t.take(first_index(t, '.'))
}

/// What comes between the first and the second '.' of `t` (or its end).
pub open spec fn second_part(t: Seq<char>) -> Seq<char> {
    let rest = t.skip(first_index(t, '.') + 1);
    rest.take(first_index(rest, '.'))
}

pub fn find_char(chars: &Vec<char>, from: usize, c: char) -> (k: usize)
    requires
        from <= chars.len(),
    ensures
        from <= k <= chars.len(),
        k - from == first_index(chars@.skip(from as int), c),
        forall|j: int| from <= j < k ==> chars@[j] != c,
        k < chars.len() ==> chars@[k as int] == c,
{
    let mut k = from;
    while k < chars.len() && chars[k] != c
        invariant
            from <= k <= chars.len(),
            forall|j: int| from <= j < k ==> chars@[j] != c,
        decreases chars.len() - k,
    {
        k = k + 1;
    }
    proof {
        lemma_first_index(chars@.skip(from as int), c, k - from);
    }
    k
}

/// The first two '.'-separated parts of `t`, as `t.split('.')` yields them.
pub fn split_at_dot(t: &str) -> (r: (&str, &str))
    requires
        t@.contains('.'),
    ensures
        r.0@ == first_part(t@),
        r.1@ == second_part(t@),
{
    let chars = chars_vec(t);
    let k1 = find_char(&chars, 0, '.');
    proof {
        assert(chars@.skip(0) =~= chars@);
        assert(k1 < chars.len());
    }
    let k2 = find_char(&chars, k1 + 1, '.');
    let a = t.substring_char(0, k1);
    let b = t.substring_char(k1 + 1, k2);
    proof {
        assert(t@.skip(k1 + 1).take(k2 - (k1 + 1)) =~= t@.subrange(k1 + 1, k2 as int));
    }
    (a, b)
}

/// Whether two strings hold the same characters.
pub fn str_eq(a: &str, b: &str) -> (r: bool)
    ensures
        r == (a@ == b@),
{
    let x = chars_vec(a);
    let y = chars_vec(b);
    if x.len() != y.len() {
        return false;
    }
    let mut i: usize = 0;
    while i < x.len()
        invariant
            x@ == a@,
            y@ == b@,
            x.len() == y.len(),
            i <= x.len(),
            forall|j: int| 0 <= j < i ==> x@[j] == y@[j],
        decreases x.len() - i,
    {
        if x[i] != y[i] {
            return false;
        }
        i = i + 1;
    }
    proof {
        assert(a@ =~= b@);
    }
    true
}

/// Unicode `White_Space`, the characters `char::is_whitespace` accepts.
pub open spec fn is_whitespace(c: char) -> bool {
    ||| ('\u{9}' <= c && c <= '\u{d}')
    ||| c == ' '
    ||| c == '\u{85}'
    ||| c == '\u{a0}'
    ||| c == '\u{1680}'
    ||| ('\u{2000}' <= c && c <= '\u{200a}')
    ||| c == '\u{2028}'
    ||| c == '\u{2029}'
    ||| c == '\u{202f}'
    ||| c == '\u{205f}'
    ||| c == '\u{3000}'
}

pub fn is_whitespace_char(c: char) -> (r: bool)
    ensures
        r == is_whitespace(c),
{
    ('\u{9}' <= c && c <= '\u{d}') || c == ' ' || c == '\u{85}' || c == '\u{a0}' || c
        == '\u{1680}' || ('\u{2000}' <= c && c <= '\u{200a}') || c == '\u{2028}' || c
        == '\u{2029}' || c == '\u{202f}' || c == '\u{205f}' || c == '\u{3000}'
}

/// `s` without its leading whitespace.
pub open spec fn trim_start_s(s: Seq<char>) -> Seq<char>
    decreases s.len(),
{
    if s.len() > 0 && is_whitespace(s[0]) {
        trim_start_s(s.drop_first())
    } else {
        s
    }
}

/// `s` without its trailing whitespace.
pub open spec fn trim_end_s(s: Seq<char>) -> Seq<char>
    decreases s.len(),
{
    if s.len() > 0 && is_whitespace(s.last()) {
        trim_end_s(s.drop_last())
    } else {
        s
    }
}

/// `s` without leading and trailing whitespace, as `str::trim` gives it.
pub open spec fn trim_s(s: Seq<char>) -> Seq<char> {
    trim_end_s(trim_start_s(s))
}

proof fn lemma_trim_start(s: Seq<char>, i: int)
    requires
        0 <= i <= s.len(),
        forall|j: int| 0 <= j < i ==> is_whitespace(s[j]),
        i == s.len() || !is_whitespace(s[i]),
    ensures
        trim_start_s(s) == s.skip(i),
    decreases i,
{
    if i == 0 {
        assert(s.skip(0) =~= s);
    } else {
        lemma_trim_start(s.drop_first(), i - 1);
        assert(s.drop_first().skip(i - 1) =~= s.skip(i));
    }
}

proof fn lemma_trim_end(s: Seq<char>, j: int)
    requires
        0 <= j <= s.len(),
        forall|k: int| j <= k < s.len() ==> is_whitespace(s[k]),
        j == 0 || !is_whitespace(s[j - 1]),
    ensures
        trim_end_s(s) == s.take(j),
    decreases s.len() - j,
{
    if j == s.len() {
        assert(s.take(j) =~= s);
    } else {
        lemma_trim_end(s.drop_last(), j);
        assert(s.drop_last().take(j) =~= s.take(j));
    }
}

/// `s` without leading and trailing whitespace.
pub fn trim(s: &str) -> (r: &str)
    ensures
        r@ == trim_s(s@),
{
    let c = chars_vec(s);
    let mut i: usize = 0;
    while i < c.len() && is_whitespace_char(c[i])
        invariant
            c@ == s@,
            i <= c.len(),
            forall|j: int| 0 <= j < i ==> is_whitespace(s@[j]),
        decreases c.len() - i,
    {
        i = i + 1;
    }
    let mut j: usize = c.len();
    while j > i && is_whitespace_char(c[j - 1])
        invariant
            c@ == s@,
            i <= j <= c.len(),
            forall|k: int| j <= k < c.len() ==> is_whitespace(s@[k]),
        decreases j - i,
    {
        j = j - 1;
    }
    proof {
        lemma_trim_start(s@, i as int);
        let rest = s@.skip(i as int);
        lemma_trim_end(rest, (j - i) as int);
        assert(rest.take((j - i) as int) =~= s@.subrange(i as int, j as int));
    }
    s.substring_char(i, j)
}

proof fn lemma_boundary_in_rest(b: Seq<u8>, lo: int, hi: int)
    requires
        valid_utf8(b),
        0 <= lo <= hi <= b.len(),
        is_char_boundary(b, lo),
        is_char_boundary(b, hi),
    ensures
        is_char_boundary(b.subrange(lo, b.len() as int), hi - lo),
{
    let rest = b.subrange(lo, b.len() as int);
    assert(valid_utf8(rest));
    if hi == b.len() {
        assert(rest.len() == hi - lo);
    } else if hi == lo {
    } else {
        vstd::utf8::is_char_boundary_iff_not_is_continuation_byte(b, hi);
        vstd::utf8::is_char_boundary_iff_not_is_continuation_byte(rest, hi - lo);
        assert(rest[hi - lo] == b[hi]);
    }
}

/// The text of bytes `lo..hi` of `t`, both character boundaries.
pub fn field_text(t: &str, lo: usize, hi: usize) -> (r: &str)
    requires
        lo <= hi <= t.spec_bytes().len(),
        is_char_boundary(t.spec_bytes(), lo as int),
        is_char_boundary(t.spec_bytes(), hi as int),
    ensures
        r@ == decode_utf8(t.spec_bytes().subrange(lo as int, hi as int)),
{
    let ghost b = t.spec_bytes();
    let (_, rest) = t.split_at(lo);
    proof {
        lemma_boundary_in_rest(b, lo as int, hi as int);
        assert(rest.spec_bytes() =~= b.subrange(lo as int, b.len() as int));
    }
    let (mid, _) = rest.split_at(hi - lo);
    proof {
        assert(mid.spec_bytes() =~= b.subrange(lo as int, hi as int));
    }
    mid
}

/// The characters of `s`, in order.
pub fn chars_vec(s: &str) -> (v: Vec<char>)
    ensures
        v@ == s@,
{
    let mut v: Vec<char> = Vec::new();
    for c in it: s.chars()
        invariant
            it.seq() == s@,
            v@ == it.seq().take(it.index() as int),
    {
        v.push(c);
    }
    v
}

} // verus!
