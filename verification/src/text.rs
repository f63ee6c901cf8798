//! Plain-text renderings of the values the library reports: lowercase
//! hexadecimal for raw bytes and base-ten numerals for integers.

use vstd::prelude::*;
use vstd::utf8::{encode_utf8, valid_utf8};

verus! {

/// The character of a digit in base sixteen, lowercase (`0`-`9`, `a`-`f`).
pub open spec fn hex_digit(n: u8) -> char
    recommends
        n < 16,
{
    if n < 10 {
        (48 + n) as char
    } else {
        (87 + n) as char
    }
}

/// The two lowercase hexadecimal characters of one byte, high nibble first.
pub open spec fn hex_of_byte(b: u8) -> Seq<char> {
    seq![hex_digit(b / 16), hex_digit(b % 16)]
}

/// The lowercase hexadecimal rendering of a byte sequence: two characters
/// per byte, in order, with no separator or prefix.
pub open spec fn hex_text(bytes: Seq<u8>) -> Seq<char>
    decreases bytes.len(),
{
    if bytes.len() == 0 {
        Seq::empty()
    } else {
        hex_text(bytes.drop_last()) + hex_of_byte(bytes.last())
    }
}

/// The character of a digit in base ten.
pub open spec fn decimal_digit(n: nat) -> char
    recommends
        n < 10,
{
    (48 + n) as char
}

/// The base-ten numeral of a natural number, with no leading zeros.
pub open spec fn decimal_digits(n: nat) -> Seq<char>
    decreases n,
{
    if n < 10 {
        seq![decimal_digit(n)]
    } else {
        decimal_digits(n / 10).push(decimal_digit(n % 10))
    }
}

/// The base-ten numeral of an integer, with a leading `-` when negative.
pub open spec fn decimal_text(n: int) -> Seq<char> {
    if n < 0 {
        seq!['-'] + decimal_digits((-n) as nat)
    } else {
        decimal_digits(n as nat)
    }
}

proof fn hex_digit_injective(a: u8, b: u8)
    requires
        a < 16,
        b < 16,
        hex_digit(a) == hex_digit(b),
    ensures
        a == b,
{
    assert(hex_digit(a) as u32 == if a < 10 { 48 + a } else { 87 + a });
    assert(hex_digit(b) as u32 == if b < 10 { 48 + b } else { 87 + b });
}

/// The hexadecimal text determines its bytes: two byte sequences with the
/// same rendering are the same.
pub proof fn hex_text_injective(a: Seq<u8>, b: Seq<u8>)
    requires
        hex_text(a) == hex_text(b),
    ensures
        a == b,
    decreases a.len(),
{
    hex_text_len(a);
    hex_text_len(b);
    if a.len() > 0 {
        let ta = hex_text(a.drop_last());
        let tb = hex_text(b.drop_last());
        hex_text_len(a.drop_last());
        hex_text_len(b.drop_last());
        assert(hex_text(a) == ta + hex_of_byte(a.last()));
        assert(hex_text(b) == tb + hex_of_byte(b.last()));
        assert(ta =~= hex_text(a).subrange(0, ta.len() as int));
        assert(tb =~= hex_text(b).subrange(0, tb.len() as int));
        hex_text_injective(a.drop_last(), b.drop_last());
        let n = ta.len() as int;
        assert(hex_text(a)[n] == hex_digit(a.last() / 16));
        assert(hex_text(b)[n] == hex_digit(b.last() / 16));
        assert(hex_text(a)[n + 1] == hex_digit(a.last() % 16));
        assert(hex_text(b)[n + 1] == hex_digit(b.last() % 16));
        hex_digit_injective(a.last() / 16, b.last() / 16);
        hex_digit_injective(a.last() % 16, b.last() % 16);
        assert(a.last() == b.last());
        assert(a =~= a.drop_last().push(a.last()));
        assert(b =~= b.drop_last().push(b.last()));
    } else {
        assert(a =~= b);
    }
}

proof fn hex_text_len(a: Seq<u8>)
    ensures
        hex_text(a).len() == 2 * a.len(),
    decreases a.len(),
{
    if a.len() > 0 {
        hex_text_len(a.drop_last());
    }
}

/// The value a hexadecimal digit character stands for (`0`-`9`, `a`-`f`).
pub open spec fn hex_value(c: char) -> int {
    if c as int >= 97 {
        c as int - 87
    } else {
        c as int - 48
    }
}

/// Reads hexadecimal text two digits at a time, high digit first, into
/// bytes (as `u8::from_str_radix(pair, 16)` does for each pair).
pub open spec fn hex_parse(s: Seq<char>) -> Seq<u8>
    decreases s.len(),
{
    if s.len() < 2 {
        Seq::empty()
    } else {
        hex_parse(s.subrange(0, s.len() - 2)).push(
            (hex_value(s[s.len() - 2]) * 16 + hex_value(s[s.len() - 1])) as u8,
        )
    }
}

proof fn hex_value_of_digit(n: u8)
    requires
        n < 16,
    ensures
        hex_value(hex_digit(n)) == n,
{
    assert(hex_digit(n) as int == if n < 10 { 48 + n } else { 87 + n });
}

/// Reading the hexadecimal text of bytes two digits at a time gives the
/// bytes back.
pub proof fn hex_text_round_trip(bytes: Seq<u8>)
    ensures
        hex_parse(hex_text(bytes)) == bytes,
    decreases bytes.len(),
{
    if bytes.len() > 0 {
        let b = bytes.last();
        let t = hex_text(bytes);
        let prefix = hex_text(bytes.drop_last());
        hex_text_len(bytes);
        hex_text_len(bytes.drop_last());
        assert(t == prefix + hex_of_byte(b));
        assert(t.subrange(0, t.len() - 2) =~= prefix);
        hex_text_round_trip(bytes.drop_last());
        hex_value_of_digit(b / 16);
        hex_value_of_digit(b % 16);
        assert(t[t.len() - 2] == hex_digit(b / 16));
        assert(t[t.len() - 1] == hex_digit(b % 16));
        assert((b / 16) * 16 + b % 16 == b);
        assert(bytes =~= bytes.drop_last().push(b));
    } else {
        assert(hex_text(bytes) =~= Seq::<char>::empty());
        assert(bytes =~= Seq::<u8>::empty());
    }
}

/// The value a base-ten digit character stands for.
pub open spec fn digit_value(c: char) -> int {
    c as int - 48
}

/// The value of a run of base-ten digits, most significant first.
pub open spec fn digits_value(s: Seq<char>) -> int
    decreases s.len(),
{
    if s.len() == 0 {
        0
    } else {
        digits_value(s.drop_last()) * 10 + digit_value(s.last())
    }
}

/// Reads a base-ten numeral with an optional leading `-` (as `str::parse`
/// does for an integer type the value fits).
pub open spec fn decimal_parse(s: Seq<char>) -> int {
    if s.len() > 0 && s[0] == '-' {
        -digits_value(s.drop_first())
    } else {
        digits_value(s)
    }
}

proof fn decimal_digits_round_trip(n: nat)
    ensures
        digits_value(decimal_digits(n)) == n,
        decimal_digits(n).len() > 0,
        decimal_digits(n)[0] != '-',
    decreases n,
{
    assert(decimal_digit(n % 10) as int == 48 + n % 10);
    if n >= 10 {
        decimal_digits_round_trip(n / 10);
        assert(decimal_digits(n).drop_last() =~= decimal_digits(n / 10));
        assert(decimal_digits(n).last() == decimal_digit(n % 10));
        assert(digit_value(decimal_digits(n).last()) == n % 10);
        assert((n / 10) * 10 + n % 10 == n);
        assert(digits_value(decimal_digits(n)) == digits_value(decimal_digits(n / 10)) * 10 + n % 10);
    } else {
        assert(decimal_digits(n).drop_last() =~= Seq::<char>::empty());
        assert(digits_value(Seq::<char>::empty()) == 0);
        assert(decimal_digits(n).last() == decimal_digit(n));
        assert(digit_value(decimal_digit(n)) == n);
        assert(digits_value(decimal_digits(n)) == digits_value(decimal_digits(n).drop_last()) * 10 + digit_value(decimal_digits(n).last()));
        assert(decimal_digit(n) as int == 48 + n);
    }
}

/// Reading the base-ten text of an integer gives the integer back.
pub proof fn decimal_text_round_trip(n: int)
    ensures
        decimal_parse(decimal_text(n)) == n,
{
    if n < 0 {
        decimal_digits_round_trip((-n) as nat);
        assert(decimal_text(n).drop_first() =~= decimal_digits((-n) as nat));
    } else {
        decimal_digits_round_trip(n as nat);
    }
}

/// Two integers with the same base-ten text are the same.
pub proof fn decimal_text_injective(a: int, b: int)
    requires
        decimal_text(a) == decimal_text(b),
    ensures
        a == b,
{
    decimal_text_round_trip(a);
    decimal_text_round_trip(b);
}

/// Reads bytes as UTF-8 text (`std::str::from_utf8`): the text exists
/// exactly when the bytes are well-formed UTF-8, and its UTF-8 encoding is
/// the bytes themselves.
#[verifier::external_body]
pub(crate) fn utf8_str(bytes: &[u8]) -> (r: Option<&str>)
    ensures
        r is Some <==> valid_utf8(bytes@),
        r matches Some(s) ==> encode_utf8(s@) == bytes@,
{
    std::str::from_utf8(bytes).ok()
}

/// Appends one character to a string (`String::push`). Claims: the string
/// afterwards is the string before with the character at its end.
#[verifier::external_body]
pub(crate) fn push_char(s: &mut String, c: char)
    ensures
        final(s)@ == old(s)@.push(c),
{
    s.push(c);
}

fn hex_digit_char(n: u8) -> (c: char)
    requires
        n < 16,
    ensures
        c == hex_digit(n),
{
    if n < 10 {
        (48 + n) as char
    } else {
        (87 + n) as char
    }
}

/// Renders bytes as lowercase hexadecimal, two digits per byte
/// (`[0xde, 0xad]` becomes `"dead"`).
pub fn hex_encode(bytes: &[u8]) -> (s: String)
    ensures
        s@ == hex_text(bytes@),
        s@.len() == 2 * bytes@.len(),
{
    let mut s = String::new();
    let mut i: usize = 0;
    while i < bytes.len()
        invariant
            i <= bytes@.len(),
            s@ == hex_text(bytes@.take(i as int)),
            s@.len() == 2 * i,
        decreases bytes@.len() - i,
    {
        let b = bytes[i];
        push_char(&mut s, hex_digit_char(b / 16));
        push_char(&mut s, hex_digit_char(b % 16));
        assert(bytes@.take(i + 1).drop_last() == bytes@.take(i as int));
        i = i + 1;
    }
    assert(bytes@.take(bytes@.len() as int) == bytes@);
    s
}

fn push_decimal_digits(s: &mut String, n: u64)
    ensures
        final(s)@ == old(s)@ + decimal_digits(n as nat),
    decreases n,
{
    if n >= 10 {
        push_decimal_digits(s, n / 10);
    }
    let d: u8 = (n % 10) as u8;
    push_char(s, (48 + d) as char);
    assert(decimal_digit((n % 10) as nat) == (48 + d) as char);
}

/// Renders a signed integer in base ten, as `Display` does for `i64`.
pub(crate) fn decimal_string(n: i64) -> (s: String)
    ensures
        s@ == decimal_text(n as int),
{
    let mut s = String::new();
    let magnitude: u64;
    if n < 0 {
        push_char(&mut s, '-');
        magnitude = (-(n as i128)) as u64;
    } else {
        magnitude = n as u64;
    }
    push_decimal_digits(&mut s, magnitude);
    s
}

} // verus!
