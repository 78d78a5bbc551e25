//! Small building blocks for assembling strings one character at a time:
//! byte lengths, repetition, and hexadecimal and decimal numerals.

use vstd::prelude::*;
use vstd::utf8::{
    encode_scalar, encode_utf8, has_width_1_encoding, last_continuation_byte,
    leading_byte_width_1,
};

verus! {

/// `String::push` appends exactly one character to the end of the string.
pub assume_specification[ String::push ](s: &mut String, c: char)
    ensures
        final(s)@ == old(s)@.push(c),
;

/// Number of bytes that the UTF-8 encoding of `s` occupies.
pub open spec fn utf8_len(s: Seq<char>) -> nat {
    encode_utf8(s).len()
}

/// Every character takes at least one byte, so a text never has more
/// characters than bytes.
pub proof fn lemma_utf8_len_bounds_chars(s: Seq<char>)
    ensures
        s.len() <= utf8_len(s),
    decreases s.len(),
{
    if s.len() > 0 {
        lemma_utf8_len_bounds_chars(s.drop_first());
        assert(encode_scalar(s[0] as u32).len() >= 1);
    }
}

/// The empty text, and only the empty text, encodes to zero bytes.
pub proof fn lemma_utf8_len_zero(s: Seq<char>)
    ensures
        utf8_len(s) == 0 <==> s.len() == 0,
{
    lemma_utf8_len_bounds_chars(s);
}

/// Byte length of `s`, as `str::len` reports it.
pub fn byte_len(s: &str) -> (n: usize)
    ensures
        n == utf8_len(s@),
{
    s.as_bytes().len()
}

/// Encoding a text extended by one character appends that character's bytes.
pub proof fn lemma_encode_utf8_push(s: Seq<char>, c: char)
    ensures
        encode_utf8(s.push(c)) == encode_utf8(s) + encode_scalar(c as u32),
    decreases s.len(),
{
    let t = s.push(c);
    if s.len() == 0 {
        assert(t.drop_first() =~= Seq::<char>::empty());
        assert(encode_utf8(t.drop_first()) =~= Seq::<u8>::empty());
        assert(encode_utf8(s) =~= Seq::<u8>::empty());
        assert(encode_utf8(t) == encode_scalar(t[0] as u32) + encode_utf8(t.drop_first()));
        assert(encode_utf8(t) =~= encode_utf8(s) + encode_scalar(c as u32));
    } else {
        assert(t.drop_first() =~= s.drop_first().push(c));
        lemma_encode_utf8_push(s.drop_first(), c);
        assert(encode_utf8(t) == encode_scalar(t[0] as u32) + encode_utf8(t.drop_first()));
        assert(encode_utf8(s) == encode_scalar(s[0] as u32) + encode_utf8(s.drop_first()));
        assert(encode_utf8(t) =~= encode_utf8(s) + encode_scalar(c as u32));
    }
}

/// The byte 0x0A stands at the end of an encoded text exactly when the
/// text's last character is the newline: every other character ends in a
/// different byte.
pub proof fn lemma_last_byte_is_newline(s: Seq<char>)
    requires
        s.len() > 0,
    ensures
        utf8_len(s) > 0,
        encode_utf8(s).last() == 0x0au8 <==> s.last() == '\n',
{
    let c = s.last();
    lemma_encode_utf8_push(s.drop_last(), c);
    assert(s.drop_last().push(c) =~= s);
    let v: u32 = c as u32;
    vstd::utf8::char_is_scalar(c);
    vstd::utf8::char_u32_cast(c, v);
    let enc = encode_scalar(v);
    assert(enc.len() > 0);
    assert(encode_utf8(s).last() == enc.last());
    assert(v <= 0x7f ==> ((v & 0x7F) as u8 == 0x0au8 <==> v == 0x0au32)) by (bit_vector);
    assert((0x80u8 | (v & 0x3F) as u8) != 0x0au8) by (bit_vector);
    if has_width_1_encoding(v) {
        assert(enc.last() == leading_byte_width_1(v));
    } else {
        assert(enc.last() == last_continuation_byte(v));
    }
    assert(c == '\n' <==> v == 0x0au32);
}

/// Whether `s` ends with a newline character.
pub open spec fn ends_with_newline(s: Seq<char>) -> bool {
    s.len() > 0 && s.last() == '\n'
}

/// Whether `s` ends with a newline character, read off its last byte.
pub fn str_ends_with_newline(s: &str) -> (b: bool)
    ensures
        b == ends_with_newline(s@),
{
    let bytes = s.as_bytes();
    let n = bytes.len();
    proof {
        lemma_utf8_len_zero(s@);
        if s@.len() > 0 {
            lemma_last_byte_is_newline(s@);
        }
    }
    n > 0 && bytes[n - 1] == 10u8
}

/// Whether two texts hold the same characters, decided on their bytes: the
/// encoding loses nothing, so equal bytes mean equal characters.
pub fn str_eq(a: &str, b: &str) -> (same: bool)
    ensures
        same == (a@ == b@),
{
    let x = a.as_bytes();
    let y = b.as_bytes();
    proof {
        vstd::utf8::encode_utf8_decode_utf8(a@);
        vstd::utf8::encode_utf8_decode_utf8(b@);
    }
    if x.len() != y.len() {
        return false;
    }
    let mut i: usize = 0;
    while i < x.len()
        invariant
            i <= x@.len(),
            x@.len() == y@.len(),
            x@ == encode_utf8(a@),
            y@ == encode_utf8(b@),
            forall|k: int| 0 <= k < i ==> x@[k] == y@[k],
        decreases x@.len() - i,
    {
        if x[i] != y[i] {
            return false;
        }
        i = i + 1;
    }
    assert(x@ =~= y@);
    true
}

/// `unit` written `n` times in a row.
pub open spec fn repeat(unit: Seq<char>, n: nat) -> Seq<char>
    decreases n,
{
    if n == 0 {
        Seq::empty()
    } else {
        repeat(unit, (n - 1) as nat) + unit
    }
}

/// Appends `n` copies of `unit` to `out`.
pub fn push_repeated(out: &mut String, unit: &str, n: usize)
    ensures
        final(out)@ == old(out)@ + repeat(unit@, n as nat),
{
    let mut k: usize = 0;
    while k < n
        invariant
            k <= n,
            out@ == old(out)@ + repeat(unit@, k as nat),
        decreases n - k,
    {
        out.append(unit);
        k = k + 1;
    }
}

/// The digit for a value below sixteen: `0` to `9`, then lowercase `a` to `f`.
pub open spec fn hex_digit(d: int) -> char {
    if d < 10 {
        ('0' as int + d) as char
    } else {
        ('a' as int + d - 10) as char
    }
}

/// Lowercase hexadecimal numeral of `v`, padded on the left with zeros to at
/// least `width` digits (and never shorter than one digit).
pub open spec fn hex_digits(v: nat, width: nat) -> Seq<char>
    decreases v, width,
{
    if v < 16 && width <= 1 {
        seq![hex_digit(v as int)]
    } else {
        hex_digits(v / 16, if width > 0 { (width - 1) as nat } else { 0 }).push(hex_digit((v % 16) as int))
    }
}

/// The character for one digit.
fn hex_digit_char(d: u8) -> (c: char)
    requires
        d < 16,
    ensures
        c == hex_digit(d as int),
{
    if d < 10 {
        (48u8 + d) as char
    } else {
        (87u8 + d) as char
    }
}

/// Appends the hexadecimal numeral of `v`, at least `width` digits wide.
pub fn push_hex(out: &mut String, v: u32, width: u32)
    ensures
        final(out)@ == old(out)@ + hex_digits(v as nat, width as nat),
    decreases v, width,
{
    if v < 16 && width <= 1 {
        out.push(hex_digit_char(v as u8));
    } else {
        let rest: u32 = if width > 0 { width - 1 } else { 0 };
        push_hex(out, v / 16, rest);
        out.push(hex_digit_char((v % 16) as u8));
    }
}

/// Decimal numeral of `n`, without leading zeros.
pub open spec fn decimal_digits(n: nat) -> Seq<char>
    decreases n,
{
    if n < 10 {
        seq![hex_digit(n as int)]
    } else {
        decimal_digits(n / 10).push(hex_digit((n % 10) as int))
    }
}

/// Appends the decimal numeral of `n`.
pub fn push_decimal(out: &mut String, n: usize)
    ensures
        final(out)@ == old(out)@ + decimal_digits(n as nat),
    decreases n,
{
    if n < 10 {
        out.push(hex_digit_char(n as u8));
    } else {
        push_decimal(out, n / 10);
        out.push(hex_digit_char((n % 10) as u8));
    }
}

} // verus!
