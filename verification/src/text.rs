//! Characters, digits and the few string operations the server needs.
//!
//! Everything here works on `Seq<char>` in specifications. The three
//! conversions at the end of the file are not proved: they call the standard
//! library and their results are only named.

use vstd::prelude::*;
use vstd::utf8::{encode_utf8, encode_utf8_decode_utf8};

verus! {

/// Whether `c` is white space in the sense of Unicode's `White_Space` property.
pub open spec fn is_space(c: char) -> bool {
    let u = c as u32;
    ||| 0x09 <= u <= 0x0D
    ||| u == 0x20
    ||| u == 0x85
    ||| u == 0xA0
    ||| u == 0x1680
    ||| 0x2000 <= u <= 0x200A
    ||| u == 0x2028
    ||| u == 0x2029
    ||| u == 0x202F
    ||| u == 0x205F
    ||| u == 0x3000
}

/// Executable form of [`is_space`].
pub fn is_whitespace(c: char) -> (r: bool)
    ensures
        r == is_space(c),
{
    let u: u32 = c as u32;
    (0x09 <= u && u <= 0x0D) || u == 0x20 || u == 0x85 || u == 0xA0 || u == 0x1680 || (0x2000 <= u
        && u <= 0x200A) || u == 0x2028 || u == 0x2029 || u == 0x202F || u == 0x205F || u == 0x3000
}

/// `s` without the white space at its end.
pub open spec fn trim_end(s: Seq<char>) -> Seq<char>
    decreases s.len(),
{
    if s.len() > 0 && is_space(s.last()) {
        trim_end(s.drop_last())
    } else {
        s
    }
}

/// The length of `trim_end(chars@)`.
pub fn trimmed_len(chars: &[char]) -> (n: usize)
    ensures
        n <= chars@.len(),
        trim_end(chars@) == chars@.take(n as int),
{
    let mut n: usize = chars.len();
    assert(chars@.take(n as int) == chars@);
    while n > 0 && is_whitespace(chars[n - 1])
        invariant
            n <= chars@.len(),
            trim_end(chars@) == trim_end(chars@.take(n as int)),
        decreases n,
    {
        assert(chars@.take(n as int).drop_last() == chars@.take(n - 1));
        n = n - 1;
    }
    n
}

/// The value of `c` as a digit in the given radix, if it is one.
/// Letters count from ten, in either case.
pub open spec fn digit_of(c: char, radix: nat) -> Option<nat> {
    let u = c as u32;
    let v: nat = if 0x30 <= u <= 0x39 {
        (u - 0x30) as nat
    } else if 0x61 <= u <= 0x7A {
        (u - 0x61 + 10) as nat
    } else if 0x41 <= u <= 0x5A {
        (u - 0x41 + 10) as nat
    } else {
        radix
    };
    if v < radix {
        Some(v)
    } else {
        None
    }
}

/// The number that the digits `s` write in the given radix, most significant
/// digit first. `None` if one of them is no digit. The empty sequence writes 0.
pub open spec fn digits_value(s: Seq<char>, radix: nat) -> Option<nat>
    decreases s.len(),
{
    if s.len() == 0 {
        Some(0)
    } else {
        match (digits_value(s.drop_last(), radix), digit_of(s.last(), radix)) {
            (Some(v), Some(d)) => Some(v * radix + d),
            _ => None,
        }
    }
}

/// The number that `s` writes: one optional `+`, then at least one digit.
pub open spec fn unsigned_value(s: Seq<char>, radix: nat) -> Option<nat> {
    let digits = if s.len() > 0 && s[0] == '+' {
        s.skip(1)
    } else {
        s
    };
    if digits.len() == 0 {
        None
    } else {
        digits_value(digits, radix)
    }
}

/// What parsing `s` as a `usize` gives: its value, unless it is malformed or
/// does not fit.
pub open spec fn parse_usize(s: Seq<char>, radix: nat) -> Option<usize> {
    match unsigned_value(s, radix) {
        Some(v) => if v <= usize::MAX {
            Some(v as usize)
        } else {
            None
        },
        None => None,
    }
}

/// A sequence with a bad digit in one of its prefixes has no value.
pub proof fn lemma_digits_prefix_none(s: Seq<char>, radix: nat, i: int)
    requires
        0 <= i <= s.len(),
        digits_value(s.take(i), radix) is None,
    ensures
        digits_value(s, radix) is None,
    decreases s.len(),
{
    if i < s.len() {
        assert(s.drop_last().take(i) == s.take(i));
        lemma_digits_prefix_none(s.drop_last(), radix, i);
    } else {
        assert(s.take(i) == s);
    }
}

/// The value of a prefix never exceeds the value of the whole.
pub proof fn lemma_digits_prefix_le(s: Seq<char>, radix: nat, i: int)
    requires
        0 <= i <= s.len(),
        radix >= 1,
        digits_value(s, radix) is Some,
    ensures
        digits_value(s.take(i), radix) is Some,
        digits_value(s.take(i), radix)->0 <= digits_value(s, radix)->0,
    decreases s.len(),
{
    if i < s.len() {
        assert(s.drop_last().take(i) == s.take(i));
        lemma_digits_prefix_le(s.drop_last(), radix, i);
        let v = digits_value(s.drop_last(), radix)->0;
        assert(v <= v * radix) by (nonlinear_arith)
            requires
                radix >= 1,
        ;
    } else {
        assert(s.take(i) == s);
    }
}

/// The digit that `c` is in the given radix.
pub fn digit_value(c: char, radix: u32) -> (r: Option<u32>)
    requires
        2 <= radix <= 36,
    ensures
        r is Some <==> digit_of(c, radix as nat) is Some,
        r is Some ==> r->0 as nat == digit_of(c, radix as nat)->0 && r->0 < radix,
{
    let u: u32 = c as u32;
    let v: u32 = if 0x30 <= u && u <= 0x39 {
        u - 0x30
    } else if 0x61 <= u && u <= 0x7A {
        u - 0x61 + 10
    } else if 0x41 <= u && u <= 0x5A {
        u - 0x41 + 10
    } else {
        radix
    };
    if v < radix {
        Some(v)
    } else {
        None
    }
}

/// Parses `chars` as an unsigned number in the given radix: one optional
/// `+`, then digits. `None` if it is empty, holds anything else, or is too
/// large for a `usize`.
pub fn parse_unsigned(chars: &[char], radix: u32) -> (r: Option<usize>)
    requires
        2 <= radix <= 36,
    ensures
        r == parse_usize(chars@, radix as nat),
{
    let n: usize = chars.len();
    let start: usize = if n > 0 && chars[0] == '+' {
        1
    } else {
        0
    };
    if start == n {
        return None;
    }
    let ghost digits = chars@.skip(start as int);
    assert(chars@.skip(0) == chars@);
    assert(unsigned_value(chars@, radix as nat) == digits_value(digits, radix as nat));
    let mut acc: usize = 0;
    let mut i: usize = start;
    assert(digits.take(0) == Seq::<char>::empty());
    while i < n
        invariant
            start <= i <= n,
            n == chars@.len(),
            2 <= radix <= 36,
            digits == chars@.skip(start as int),
            unsigned_value(chars@, radix as nat) == digits_value(digits, radix as nat),
            digits_value(digits.take(i - start), radix as nat) == Some(acc as nat),
        decreases n - i,
    {
        let ghost k = i - start;
        proof {
            assert(digits.take(k + 1).drop_last() == digits.take(k));
            assert(digits.take(k + 1).last() == chars@[i as int]);
        }
        let d = match digit_value(chars[i], radix) {
            Some(d) => d,
            None => {
                proof {
                    lemma_digits_prefix_none(digits, radix as nat, k + 1);
                }
                return None;
            },
        };
        let next = match acc.checked_mul(radix as usize) {
            Some(m) => m.checked_add(d as usize),
            None => None,
        };
        match next {
            Some(v) => {
                acc = v;
            },
            None => {
                proof {
                    if digits_value(digits, radix as nat) is Some {
                        lemma_digits_prefix_le(digits, radix as nat, k + 1);
                    }
                }
                return None;
            },
        }
        i = i + 1;
    }
    assert(digits.take(n - start) == digits);
    Some(acc)
}

/// The character that writes the digit `d`.
pub open spec fn digit_char(d: nat) -> char {
    if d == 0 {
        '0'
    } else if d == 1 {
        '1'
    } else if d == 2 {
        '2'
    } else if d == 3 {
        '3'
    } else if d == 4 {
        '4'
    } else if d == 5 {
        '5'
    } else if d == 6 {
        '6'
    } else if d == 7 {
        '7'
    } else if d == 8 {
        '8'
    } else {
        '9'
    }
}

/// `n` written in decimal, without leading zeros.
pub open spec fn decimal_digits(n: nat) -> Seq<char>
    decreases n,
{
    if n < 10 {
        seq![digit_char(n)]
    } else {
        decimal_digits(n / 10).push(digit_char(n % 10))
    }
}

fn digit_str(d: u8) -> (s: &'static str)
    requires
        d < 10,
    ensures
        s@ == seq![digit_char(d as nat)],
{
    proof {
        reveal_strlit("0");
        reveal_strlit("1");
        reveal_strlit("2");
        reveal_strlit("3");
        reveal_strlit("4");
        reveal_strlit("5");
        reveal_strlit("6");
        reveal_strlit("7");
        reveal_strlit("8");
        reveal_strlit("9");
    }
    let s = match d {
        0 => "0",
        1 => "1",
        2 => "2",
        3 => "3",
        4 => "4",
        5 => "5",
        6 => "6",
        7 => "7",
        8 => "8",
        _ => "9",
    };
    assert(s@ =~= seq![digit_char(d as nat)]);
    s
}

/// Writes `n` in decimal.
pub fn decimal_string(n: u128) -> (s: String)
    ensures
        s@ == decimal_digits(n as nat),
    decreases n,
{
    if n < 10 {
        String::from_str(digit_str(n as u8))
    } else {
        let mut s = decimal_string(n / 10);
        s.append(digit_str((n % 10) as u8));
        s
    }
}

/// Decimal digits are digits, and they write the number they were made from.
pub proof fn lemma_decimal_round_trip(n: nat)
    ensures
        decimal_digits(n).len() > 0,
        decimal_digits(n)[0] != '+',
        digits_value(decimal_digits(n), 10) == Some(n),
        unsigned_value(decimal_digits(n), 10) == Some(n),
    decreases n,
{
    let s = decimal_digits(n);
    if n < 10 {
        assert(s.drop_last() == Seq::<char>::empty());
        assert(digits_value(s.drop_last(), 10) == Some(0nat));
    } else {
        lemma_decimal_round_trip(n / 10);
        assert(s.drop_last() == decimal_digits(n / 10));
        assert(s[0] == decimal_digits(n / 10)[0]);
    }
}

/// The characters of `s`, one by one.
pub fn chars_of(s: &str) -> (v: Vec<char>)
    ensures
        v@ == s@,
{
    let mut v: Vec<char> = Vec::new();
    for c in it: s.chars()
        invariant
            v@ == it.seq().take(it.index() as int),
    {
        v.push(c);
    }
    v
}

/// The characters `chars[from..to]` of `text`, as a string of their own.
pub fn substring(text: &str, from: usize, to: usize) -> (s: String)
    requires
        from <= to <= text@.len(),
    ensures
        s@ == text@.subrange(from as int, to as int),
{
    String::from_str(text.substring_char(from, to))
}

/// Whether two strings hold the same characters.
pub fn str_eq(a: &str, b: &str) -> (r: bool)
    ensures
        r == (a@ == b@),
{
    let x = a.as_bytes();
    let y = b.as_bytes();
    proof {
        encode_utf8_decode_utf8(a@);
        encode_utf8_decode_utf8(b@);
    }
    if x.len() != y.len() {
        return false;
    }
    let mut i: usize = 0;
    while i < x.len()
        invariant
            i <= x@.len(),
            x@.len() == y@.len(),
            x@ == encode_utf8(a@),
            y@ == encode_utf8(b@),
            x@.take(i as int) == y@.take(i as int),
        decreases x@.len() - i,
    {
        if x[i] != y[i] {
            return false;
        }
        assert(x@.take(i + 1) == x@.take(i as int).push(x@[i as int]));
        assert(y@.take(i + 1) == y@.take(i as int).push(y@[i as int]));
        i = i + 1;
    }
    assert(x@.take(i as int) == x@);
    assert(y@.take(i as int) == y@);
    true
}

/// The byte `b` read as the character with the same number.
pub open spec fn latin1(bytes: Seq<u8>) -> Seq<char> {
    Seq::new(bytes.len(), |i: int| bytes[i] as char)
}

/// Each byte of `bytes` as the character with the same number.
pub fn latin1_chars(bytes: &[u8]) -> (v: Vec<char>)
    ensures
        v@ == latin1(bytes@),
{
    let mut v: Vec<char> = Vec::new();
    let mut i: usize = 0;
    while i < bytes.len()
        invariant
            i <= bytes@.len(),
            v@ == latin1(bytes@.take(i as int)),
        decreases bytes@.len() - i,
    {
        v.push(bytes[i] as char);
        assert(v@ == latin1(bytes@.take(i + 1)));
        i = i + 1;
    }
    assert(bytes@.take(i as int) == bytes@);
    v
}

/// The text that lossy UTF-8 decoding makes of `bytes`: valid sequences
/// decoded, each invalid one replaced by U+FFFD.
pub uninterp spec fn utf8_lossy(bytes: Seq<u8>) -> Seq<char>;

/// `s` with every character replaced by its Unicode upper-case mapping.
pub uninterp spec fn uppercase(s: Seq<char>) -> Seq<char>;

/// `s` with every character replaced by its Unicode lower-case mapping.
pub uninterp spec fn lowercase(s: Seq<char>) -> Seq<char>;

/// Calls `String::from_utf8_lossy`. Trusted: the result is the lossy decoding
/// of `bytes`.
#[verifier::external_body]
pub(crate) fn decode_lossy(bytes: &[u8]) -> (s: String)
    ensures
        s@ == utf8_lossy(bytes@),
{
    String::from_utf8_lossy(bytes).into_owned()
}

/// Calls `str::to_uppercase`. Trusted: the result is the upper-case form of `s`.
#[verifier::external_body]
pub(crate) fn to_upper(s: &str) -> (r: String)
    ensures
        r@ == uppercase(s@),
{
    s.to_uppercase()
}

/// Calls `str::to_lowercase`. Trusted: the result is the lower-case form of `s`.
#[verifier::external_body]
pub(crate) fn to_lower(s: &str) -> (r: String)
    ensures
        r@ == lowercase(s@),
{
    s.to_lowercase()
}

} // verus!
