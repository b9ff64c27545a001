//! Building text: decimal and hexadecimal numerals, appended to a `String`.

use vstd::prelude::*;

verus! {

/// The character of a hexadecimal digit (lower case); `d` below 16.
pub open spec fn hex_digit(d: nat) -> char {
    if d < 10 {
        ((48 + d) as u8) as char
    } else {
        ((87 + d) as u8) as char
    }
}

/// The decimal numeral of `n`, without leading zeros.
pub open spec fn dec(n: nat) -> Seq<char>
    decreases n,
{
    if n < 10 {
        seq![hex_digit(n)]
    } else {
        dec(n / 10).push(hex_digit(n % 10))
    }
}

/// The decimal numeral of a 16-bit value.
pub open spec fn dec16(n: u16) -> Seq<char> {
    dec(n as nat)
}

/// The decimal numeral of a 32-bit value.
pub open spec fn dec32(n: u32) -> Seq<char> {
    dec(n as nat)
}

/// Four lower-case hexadecimal digits of a 16-bit value.
pub open spec fn hex16(n: u16) -> Seq<char> {
    hex_padded(n as nat, 4)
}

/// The lower-case hexadecimal numeral of `n`, without leading zeros.
pub open spec fn hex(n: nat) -> Seq<char>
    decreases n,
{
    if n < 16 {
        seq![hex_digit(n)]
    } else {
        hex(n / 16).push(hex_digit(n % 16))
    }
}

/// The lowest `width` hexadecimal digits of `n`, padded with zeros on the left.
pub open spec fn hex_padded(n: nat, width: nat) -> Seq<char>
    decreases width,
{
    if width == 0 {
        seq![]
    } else {
        hex_padded(n / 16, (width - 1) as nat).push(hex_digit(n % 16))
    }
}

/// Appends one character, by `String::push` of the standard library; that
/// it appends exactly `c` is what its documentation says and is believed,
/// not proved.
#[verifier::external_body]
pub(crate) fn push_char(out: &mut String, c: char)
    ensures
        final(out)@ == old(out)@.push(c),
{
    out.push(c)
}

/// Appends a string slice.
pub fn push_str(out: &mut String, s: &str)
    ensures
        final(out)@ == old(out)@ + s@,
{
    out.append(s)
}

/// The digit character for `d`.
pub fn digit_char(d: u8) -> (c: char)
    requires
        d < 16,
    ensures
        c == hex_digit(d as nat),
{
    if d < 10 {
        ((48 + d) as u8) as char
    } else {
        ((87 + d) as u8) as char
    }
}

/// Appends the decimal numeral of `n`.
pub fn push_dec(out: &mut String, n: u64)
    ensures
        final(out)@ == old(out)@ + dec(n as nat),
    decreases n,
{
    if n >= 10 {
        push_dec(out, n / 10);
    }
    push_char(out, digit_char((n % 10) as u8));
}

/// Appends the decimal numeral of a 16-bit value.
pub fn push_dec16(out: &mut String, n: u16)
    ensures
        final(out)@ == old(out)@ + dec16(n),
{
    push_dec(out, n as u64)
}

/// Appends the decimal numeral of a 32-bit value.
pub fn push_dec32(out: &mut String, n: u32)
    ensures
        final(out)@ == old(out)@ + dec32(n),
{
    push_dec(out, n as u64)
}

/// Appends the lower-case hexadecimal numeral of `n`, without leading zeros.
pub fn push_hex(out: &mut String, n: u64)
    ensures
        final(out)@ == old(out)@ + hex(n as nat),
    decreases n,
{
    if n >= 16 {
        push_hex(out, n / 16);
    }
    push_char(out, digit_char((n % 16) as u8));
}

/// Appends the lowest `width` hexadecimal digits of `n`, zero padded.
pub fn push_hex_padded(out: &mut String, n: u64, width: u32)
    ensures
        final(out)@ == old(out)@ + hex_padded(n as nat, width as nat),
    decreases width,
{
    if width > 0 {
        push_hex_padded(out, n / 16, width - 1);
        push_char(out, digit_char((n % 16) as u8));
    }
}

/// Decimal numerals have no leading zero: only zero itself begins with `0`,
/// and every numeral has at least one digit.
pub proof fn law_dec_no_leading_zero(n: nat)
    ensures
        dec(n).len() >= 1,
        n == 0 ==> dec(n) == seq!['0'],
        n > 0 ==> dec(n)[0] != '0',
    decreases n,
{
    if n >= 10 {
        law_dec_no_leading_zero(n / 10);
        assert(dec(n)[0] == dec(n / 10)[0]);
    } else {
        assert(hex_digit(n) as u32 == 48 + n);
    }
}

/// Hexadecimal digits are `0`-`9` for 0 to 9 and the lower-case letters
/// `a`-`f` for 10 to 15.
pub proof fn law_hex_digit_chars(d: nat)
    requires
        d < 16,
    ensures
        d < 10 ==> hex_digit(d) as u32 == '0' as u32 + d,
        d >= 10 ==> hex_digit(d) as u32 == 'a' as u32 + (d - 10),
{
}

/// Padding to a width gives exactly that many digits, and for a value below
/// 16 to the power of the width they are its digits: the last one is the
/// value's lowest digit, and what comes before pads the rest of the value.
pub proof fn law_hex_padded_width(n: nat, width: nat)
    ensures
        hex_padded(n, width).len() == width,
        width > 0 ==> hex_padded(n, width).last() == hex_digit(n % 16),
        width > 0 ==> hex_padded(n, width).drop_last() == hex_padded(n / 16, (width - 1) as nat),
    decreases width,
{
    if width > 0 {
        law_hex_padded_width(n / 16, (width - 1) as nat);
    }
}

} // verus!
