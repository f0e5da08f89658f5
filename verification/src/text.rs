//! Rendering of numbers and field elements as text.

use crate::felt::{felt_ints, Felt};
use vstd::prelude::*;
use vstd::string::StringExecFns;

verus! {

/// The sixteen digits of lower-case hexadecimal; the first ten are the decimal digits.
pub open spec fn digits() -> Seq<char> {
    seq!['0', '1', '2', '3', '4', '5', '6', '7', '8', '9', 'a', 'b', 'c', 'd', 'e', 'f']
}

/// The decimal numeral of `n`, without leading zeros.
pub open spec fn decimal(n: nat) -> Seq<char>
    decreases n,
{
    if n < 10 {
        seq![digits()[n as int]]
    } else {
        decimal(n / 10).push(digits()[(n % 10) as int])
    }
}

/// The two hexadecimal digits of a byte, high nibble first.
pub open spec fn hex_byte(b: u8) -> Seq<char> {
    seq![digits()[(b / 16) as int], digits()[(b % 16) as int]]
}

/// The hexadecimal digits of a sequence of bytes, in order.
pub open spec fn hex_bytes(bytes: Seq<u8>) -> Seq<char>
    decreases bytes.len(),
{
    if bytes.len() == 0 {
        Seq::empty()
    } else {
        hex_bytes(bytes.drop_last()) + hex_byte(bytes.last())
    }
}

/// The numerals of `values`, separated by a comma and a space.
pub open spec fn decimal_list(values: Seq<u64>) -> Seq<char>
    decreases values.len(),
{
    if values.len() == 0 {
        Seq::empty()
    } else if values.len() == 1 {
        decimal(values[0] as nat)
    } else {
        decimal_list(values.drop_last()) + seq![',', ' '] + decimal(values.last() as nat)
    }
}

/// The numerals of `values` between square brackets.
pub open spec fn bracketed(values: Seq<u64>) -> Seq<char> {
    seq!['['] + decimal_list(values) + seq![']']
}

/// `String::push`: the text with one more character at its end.
#[verifier::external_body]
fn push_char(text: &mut String, c: char)
    ensures
        final(text)@ == old(text)@.push(c),
{
    text.push(c);
}

/// The digit that stands for `d`.
fn digit(d: u8) -> (c: char)
    requires
        d < 16,
    ensures
        c == digits()[d as int],
{
    if d == 0 {
        '0'
    } else if d == 1 {
        '1'
    } else if d == 2 {
        '2'
    } else if d == 3 {
        '3'
    } else if d == 4 {
        '4'
    } else if d == 5 {
        '5'
    } else if d == 6 {
        '6'
    } else if d == 7 {
        '7'
    } else if d == 8 {
        '8'
    } else if d == 9 {
        '9'
    } else if d == 10 {
        'a'
    } else if d == 11 {
        'b'
    } else if d == 12 {
        'c'
    } else if d == 13 {
        'd'
    } else if d == 14 {
        'e'
    } else {
        'f'
    }
}

/// Appends the decimal numeral of `n`.
pub fn push_decimal(text: &mut String, n: u64)
    ensures
        final(text)@ == old(text)@ + decimal(n as nat),
    decreases n,
{
    if n >= 10 {
        push_decimal(text, n / 10);
    }
    let d: u8 = (n % 10) as u8;
    push_char(text, digit(d));
}

/// Appends a piece of literal text.
pub fn push_text(text: &mut String, piece: &str)
    ensures
        final(text)@ == old(text)@ + piece@,
{
    text.append(piece);
}

/// Appends the two hexadecimal digits of a byte.
pub fn push_hex_byte(text: &mut String, b: u8)
    ensures
        final(text)@ == old(text)@ + hex_byte(b),
{
    push_char(text, digit(b / 16));
    push_char(text, digit(b % 16));
}

/// Appends the hexadecimal digits of `bytes`.
pub fn push_hex_bytes(text: &mut String, bytes: &Vec<u8>)
    ensures
        final(text)@ == old(text)@ + hex_bytes(bytes@),
{
    let mut i: usize = 0;
    while i < bytes.len()
        invariant
            i <= bytes.len(),
            text@ == old(text)@ + hex_bytes(bytes@.take(i as int)),
        decreases bytes.len() - i,
    {
        proof {
            let next = bytes@.take(i + 1);
            assert(next.drop_last() == bytes@.take(i as int));
            assert(next.last() == bytes@[i as int]);
        }
        push_hex_byte(text, bytes[i]);
        i += 1;
    }
    proof {
        assert(bytes@.take(i as int) == bytes@);
    }
}

/// Appends the numerals of the elements, separated by a comma and a space.
pub fn push_felt_list(text: &mut String, felts: &[Felt])
    ensures
        final(text)@ == old(text)@ + decimal_list(felt_ints(felts@)),
{
    let mut i: usize = 0;
    while i < felts.len()
        invariant
            i <= felts.len(),
            text@ == old(text)@ + decimal_list(felt_ints(felts@.take(i as int))),
        decreases felts.len() - i,
    {
        proof {
            let next = felt_ints(felts@.take(i + 1));
            assert(next.drop_last() == felt_ints(felts@.take(i as int)));
            assert(next.last() == felts@[i as int]@);
        }
        if i > 0 {
            push_text(text, ", ");
            proof {
                reveal_strlit(", ");
                assert(", "@ == seq![',', ' ']);
            }
        }
        push_decimal(text, felts[i].as_int());
        i += 1;
    }
    proof {
        assert(felts@.take(i as int) == felts@);
    }
}

/// Appends the numerals of the elements between square brackets.
pub fn push_bracketed(text: &mut String, felts: &[Felt])
    ensures
        final(text)@ == old(text)@ + bracketed(felt_ints(felts@)),
{
    push_char(text, '[');
    push_felt_list(text, felts);
    push_char(text, ']');
}

/// The decimal numeral of `n`.
pub fn decimal_string(n: u64) -> (text: String)
    ensures
        text@ == decimal(n as nat),
{
    let mut text = String::new();
    push_decimal(&mut text, n);
    text
}

} // verus!
