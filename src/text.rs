//! Character classes and small string operations shared by the parsers and
//! formatters of the library.
use vstd::prelude::*;

verus! {

/// The Unicode `White_Space` property: the characters that `char::is_whitespace`
/// accepts and that a `\s` class matches.
pub open spec fn is_white_space(c: char) -> bool {
    ('\u{9}' <= c && c <= '\u{d}') || c == ' ' || c == '\u{85}' || c == '\u{a0}' || c
        == '\u{1680}' || ('\u{2000}' <= c && c <= '\u{200a}') || c == '\u{2028}' || c
        == '\u{2029}' || c == '\u{202f}' || c == '\u{205f}' || c == '\u{3000}'
}

pub fn white_space(c: char) -> (r: bool)
    ensures
        r == is_white_space(c),
{
    ('\u{9}' <= c && c <= '\u{d}') || c == ' ' || c == '\u{85}' || c == '\u{a0}' || c
        == '\u{1680}' || ('\u{2000}' <= c && c <= '\u{200a}') || c == '\u{2028}' || c
        == '\u{2029}' || c == '\u{202f}' || c == '\u{205f}' || c == '\u{3000}'
}

pub open spec fn is_ascii_digit(c: char) -> bool {
    '0' <= c && c <= '9'
}

pub fn ascii_digit(c: char) -> (r: bool)
    ensures
        r == is_ascii_digit(c),
{
    '0' <= c && c <= '9'
}

pub open spec fn digit_value(c: char) -> nat {
    (c as u32 - '0' as u32) as nat
}

pub open spec fn digit_char(d: nat) -> char
    recommends
        d < 10,
{
    ((d + '0' as u32) as u32) as char
}

/// The decimal digits of `n`, most significant first, without leading zeros
/// (a single `0` for zero).
pub open spec fn decimal_digits(n: nat) -> Seq<char>
    decreases n,
{
    if n < 10 {
        seq![digit_char(n)]
    } else {
        decimal_digits(n / 10).push(digit_char(n % 10))
    }
}

/// `n` written in decimal, with a leading `-` when it is negative.
pub open spec fn decimal_text(n: int) -> Seq<char> {
    if n < 0 {
        seq!['-'] + decimal_digits((-n) as nat)
    } else {
        decimal_digits(n as nat)
    }
}

/// Whether `a` and `b` hold the same characters.
pub fn same_text(a: &str, b: &str) -> (r: bool)
    ensures
        r == (a@ == b@),
{
    let n = a.unicode_len();
    if n != b.unicode_len() {
        return false;
    }
    let mut i: usize = 0;
    while i < n
        invariant
            n == a@.len(),
            n == b@.len(),
            i <= n,
            forall|j: int| 0 <= j < i ==> a@[j] == b@[j],
        decreases n - i,
    {
        if a.get_char(i) != b.get_char(i) {
            return false;
        }
        i = i + 1;
    }
    assert(a@ =~= b@);
    true
}

/// The one-character text of the decimal digit `d`.
pub fn digit_text(d: u64) -> (r: &'static str)
    requires
        d < 10,
    ensures
        r@ == seq![digit_char(d as nat)],
{
    proof {
        reveal_strlit("0");
        reveal_strlit("1");
        reveal_strlit("2");
        reveal_strlit("3");
        reveal_strlit("4");
        reveal_strlit("5");
        reveal_strlit("6");
        reveal_strlit("7");
        reveal_strlit("8");
        reveal_strlit("9");
    }
    match d {
        0 => "0",
        1 => "1",
        2 => "2",
        3 => "3",
        4 => "4",
        5 => "5",
        6 => "6",
        7 => "7",
        8 => "8",
        _ => "9",
    }
}

/// Appends the decimal digits of `n` to `out`.
pub fn push_decimal(out: &mut String, n: u64)
    ensures
        final(out)@ == old(out)@ + decimal_digits(n as nat),
    decreases n,
{
    if n >= 10 {
        push_decimal(out, n / 10);
    }
    out.append(digit_text(n % 10));
    proof {
        assert(old(out)@ + decimal_digits(n as nat) =~= if n >= 10 {
            old(out)@ + decimal_digits((n / 10) as nat) + seq![digit_char((n % 10) as nat)]
        } else {
            old(out)@ + seq![digit_char((n % 10) as nat)]
        });
    }
}

/// Appends `n` in decimal, with a leading `-` when it is negative.
pub fn push_signed_decimal(out: &mut String, n: i64)
    ensures
        final(out)@ == old(out)@ + decimal_text(n as int),
{
    if n < 0 {
        proof {
            reveal_strlit("-");
        }
        out.append("-");
        let magnitude: u64 = (-(n as i128)) as u64;
        push_decimal(out, magnitude);
        assert(out@ =~= old(out)@ + decimal_text(n as int));
    } else {
        push_decimal(out, n as u64);
    }
}

/// The length of the run of whitespace that starts at `p`.
pub open spec fn white_run(s: Seq<char>, p: int) -> nat
    decreases s.len() - p,
{
    if 0 <= p < s.len() && is_white_space(s[p]) {
        1 + white_run(s, p + 1)
    } else {
        0
    }
}

pub fn white_run_from(s: &str, n: usize, p: usize) -> (r: usize)
    requires
        n == s@.len(),
        p <= n,
    ensures
        r == white_run(s@, p as int),
        p + r <= n,
{
    let mut j = p;
    while j < n && white_space(s.get_char(j))
        invariant
            n == s@.len(),
            p <= j <= n,
            white_run(s@, p as int) == (j - p) + white_run(s@, j as int),
        decreases n - j,
    {
        j = j + 1;
    }
    j - p
}

/// The length of the run of whitespace that ends `s`.
pub open spec fn trailing_white(s: Seq<char>) -> nat
    decreases s.len(),
{
    if s.len() > 0 && is_white_space(s.last()) {
        1 + trailing_white(s.drop_last())
    } else {
        0
    }
}

/// `s` without its leading and trailing whitespace.
pub open spec fn trimmed(s: Seq<char>) -> Seq<char> {
    if white_run(s, 0) == s.len() {
        Seq::empty()
    } else {
        s.subrange(white_run(s, 0) as int, s.len() - trailing_white(s))
    }
}

proof fn lemma_white_run_bound(s: Seq<char>, p: int)
    requires
        0 <= p <= s.len(),
    ensures
        p + white_run(s, p) <= s.len(),
        p + white_run(s, p) < s.len() ==> !is_white_space(s[p + white_run(s, p)]),
    decreases s.len() - p,
{
    if p < s.len() && is_white_space(s[p]) {
        lemma_white_run_bound(s, p + 1);
    }
}

/// `s` without its leading and trailing whitespace, as `str::trim` gives it.
pub fn trim(s: &str) -> (r: String)
    ensures
        r@ == trimmed(s@),
{
    let n = s.unicode_len();
    let a = white_run_from(s, n, 0);
    if a == n {
        return String::new();
    }
    proof {
        lemma_white_run_bound(s@, 0);
    }
    let mut b = n;
    assert(s@.subrange(0, n as int) =~= s@);
    while b > a && white_space(s.get_char(b - 1))
        invariant
            n == s@.len(),
            a < n,
            a < b <= n,
            !is_white_space(s@[a as int]),
            trailing_white(s@) == (n - b) + trailing_white(s@.subrange(0, b as int)),
        decreases b,
    {
        assert(s@.subrange(0, b as int).drop_last() =~= s@.subrange(0, b - 1));
        b = b - 1;
    }
    assert(s@.subrange(0, b as int).last() == s@[b - 1]);
    assert(trailing_white(s@.subrange(0, b as int)) == 0);
    String::from_str(s.substring_char(a, b))
}

/// The number that a string of ASCII digits spells in decimal.
pub open spec fn digits_value(s: Seq<char>) -> nat
    decreases s.len(),
{
    if s.len() == 0 {
        0
    } else {
        digits_value(s.drop_last()) * 10 + digit_value(s.last())
    }
}

proof fn lemma_digits_value_grows(s: Seq<char>, a: int, j: int, e: int)
    requires
        0 <= a <= j <= e <= s.len(),
    ensures
        digits_value(s.subrange(a, j)) <= digits_value(s.subrange(a, e)),
    decreases e - j,
{
    if j < e {
        lemma_digits_value_grows(s, a, j, e - 1);
        assert(s.subrange(a, e).drop_last() =~= s.subrange(a, e - 1));
    }
}

/// The value of the ASCII digits `s[a..e]`, if it is at most `cap`.
pub fn bounded_digits_value(s: &str, n: usize, a: usize, e: usize, cap: u64) -> (r: Option<u64>)
    requires
        n == s@.len(),
        a <= e <= n,
        forall|j: int| a <= j < e ==> is_ascii_digit(#[trigger] s@[j]),
    ensures
        digits_value(s@.subrange(a as int, e as int)) <= cap <==> r is Some,
        r matches Some(v) ==> v == digits_value(s@.subrange(a as int, e as int)),
{
    let mut v: u64 = 0;
    let mut j = a;
    assert(s@.subrange(a as int, a as int) =~= Seq::<char>::empty());
    while j < e
        invariant
            n == s@.len(),
            a <= j <= e <= n,
            forall|t: int| a <= t < e ==> is_ascii_digit(#[trigger] s@[t]),
            v == digits_value(s@.subrange(a as int, j as int)),
            v <= cap,
        decreases e - j,
    {
        let c = s.get_char(j);
        assert(s@.subrange(a as int, j + 1).drop_last() =~= s@.subrange(a as int, j as int));
        let d = (c as u32 - '0' as u32) as u128;
        let next: u128 = v as u128 * 10 + d;
        j = j + 1;
        if next > cap as u128 {
            proof {
                lemma_digits_value_grows(s@, a as int, j as int, e as int);
            }
            return None;
        }
        v = next as u64;
    }
    Some(v)
}

} // verus!
