//! Text: UTF-8 decoding, and numbers written in decimal and hexadecimal.

use vstd::prelude::*;
use vstd::utf8::{decode_utf8, valid_utf8};

verus! {

/// `String::push` appends one character and changes nothing else.
pub assume_specification[ String::push ](s: &mut String, ch: char)
    ensures
        final(s)@ == old(s)@.push(ch),
;

/// `String::from_utf8`: the text that `bytes` encode, or nothing when they
/// are not UTF-8.
#[verifier::external_body]
pub(crate) fn utf8_text(bytes: Vec<u8>) -> (r: Option<String>)
    ensures
        r is Some <==> valid_utf8(bytes@),
        r matches Some(text) ==> text@ == decode_utf8(bytes@),
{
    String::from_utf8(bytes).ok()
}

/// The character for one digit below sixteen, letters in lower case.
pub open spec fn digit_char(d: nat) -> char {
    if d < 10 {
        (48 + d) as char
    } else {
        (87 + d) as char
    }
}

/// `n` in decimal, without leading zeros.
pub open spec fn decimal_text(n: nat) -> Seq<char>
    decreases n,
{
    if n < 10 {
        seq![digit_char(n)]
    } else {
        decimal_text(n / 10).push(digit_char(n % 10))
    }
}

/// `n` in hexadecimal, in lower case and without leading zeros.
pub open spec fn hex_text(n: nat) -> Seq<char>
    decreases n,
{
    if n < 16 {
        seq![digit_char(n)]
    } else {
        hex_text(n / 16).push(digit_char(n % 16))
    }
}

/// The character for one digit below sixteen.
pub(crate) fn digit(d: u8) -> (c: char)
    requires
        d < 16,
    ensures
        c == digit_char(d as nat),
{
    if d < 10 {
        (48u8 + d) as char
    } else {
        (87u8 + d) as char
    }
}

/// Appends `n` in decimal.
pub fn push_decimal(out: &mut String, n: u8)
    ensures
        final(out)@ == old(out)@ + decimal_text(n as nat),
{
    proof {
        reveal_with_fuel(decimal_text, 3);
    }
    let ghost before = out@;
    if n >= 100 {
        out.push(digit(n / 100));
        out.push(digit(n / 10 % 10));
        out.push(digit(n % 10));
        assert(out@ =~= before + decimal_text(n as nat));
    } else if n >= 10 {
        out.push(digit(n / 10));
        out.push(digit(n % 10));
        assert(out@ =~= before + decimal_text(n as nat));
    } else {
        out.push(digit(n));
        assert(out@ =~= before + decimal_text(n as nat));
    }
}

/// Appends `n` in hexadecimal.
pub fn push_hex(out: &mut String, n: u16)
    ensures
        final(out)@ == old(out)@ + hex_text(n as nat),
{
    proof {
        reveal_with_fuel(hex_text, 4);
    }
    let ghost before = out@;
    if n >= 0x1000 {
        out.push(digit((n / 0x1000) as u8));
        out.push(digit((n / 0x100 % 16) as u8));
        out.push(digit((n / 0x10 % 16) as u8));
        out.push(digit((n % 16) as u8));
        assert(out@ =~= before + hex_text(n as nat));
    } else if n >= 0x100 {
        out.push(digit((n / 0x100) as u8));
        out.push(digit((n / 0x10 % 16) as u8));
        out.push(digit((n % 16) as u8));
        assert(out@ =~= before + hex_text(n as nat));
    } else if n >= 0x10 {
        out.push(digit((n / 0x10) as u8));
        out.push(digit((n % 16) as u8));
        assert(out@ =~= before + hex_text(n as nat));
    } else {
        out.push(digit(n as u8));
        assert(out@ =~= before + hex_text(n as nat));
    }
}

} // verus!
