//! The byte-level wire format: little-endian integers, field elements and words,
//! and what can go wrong when reading them back.

use crate::felt::{word_ints, Felt, Word, MODULUS};
use crate::text::{decimal, push_decimal, push_text};
use vstd::prelude::*;
use vstd::std_specs::cmp::PartialEqSpecImpl;

verus! {

/// Why a sequence of bytes could not be read as a value.
#[derive(Debug, Eq)]
pub enum DeserializationError {
    /// The bytes do not stand for a valid value.
    InvalidValue(String),
    /// The input ended before the value was complete.
    UnexpectedEOF,
    /// The value was complete before the input ended.
    UnconsumedBytes,
    /// Anything else.
    UnknownError(String),
}

/// A `DeserializationError` as a mathematical value.
pub enum DecodeFailure {
    /// The bytes do not stand for a valid value: why.
    InvalidValue(Seq<char>),
    /// The input ended before the value was complete.
    UnexpectedEof,
    /// The value was complete before the input ended.
    UnconsumedBytes,
    /// Anything else: what.
    UnknownError(Seq<char>),
}

impl View for DeserializationError {
    type V = DecodeFailure;

    open spec fn view(&self) -> DecodeFailure {
        match self {
            DeserializationError::InvalidValue(text) => DecodeFailure::InvalidValue(text@),
            DeserializationError::UnexpectedEOF => DecodeFailure::UnexpectedEof,
            DeserializationError::UnconsumedBytes => DecodeFailure::UnconsumedBytes,
            DeserializationError::UnknownError(text) => DecodeFailure::UnknownError(text@),
        }
    }
}

impl PartialEqSpecImpl for DeserializationError {
    open spec fn obeys_eq_spec() -> bool {
        true
    }

    open spec fn eq_spec(&self, other: &DeserializationError) -> bool {
        self@ == other@
    }
}

impl PartialEq for DeserializationError {
    /// Two errors are equal if and only if they are of the same variant and carry the same
    /// text.
    fn eq(&self, other: &DeserializationError) -> (equal: bool)
        ensures
            equal == (self@ == other@),
    {
        match (self, other) {
            (DeserializationError::InvalidValue(a), DeserializationError::InvalidValue(b)) => *a
                == *b,
            (DeserializationError::UnexpectedEOF, DeserializationError::UnexpectedEOF) => true,
            (DeserializationError::UnconsumedBytes, DeserializationError::UnconsumedBytes) => true,
            (DeserializationError::UnknownError(a), DeserializationError::UnknownError(b)) => *a
                == *b,
            _ => false,
        }
    }
}

impl Clone for DeserializationError {
    fn clone(&self) -> (copy: DeserializationError)
        ensures
            copy@ == self@,
    {
        match self {
            DeserializationError::InvalidValue(text) => DeserializationError::InvalidValue(
                text.clone(),
            ),
            DeserializationError::UnexpectedEOF => DeserializationError::UnexpectedEOF,
            DeserializationError::UnconsumedBytes => DeserializationError::UnconsumedBytes,
            DeserializationError::UnknownError(text) => DeserializationError::UnknownError(
                text.clone(),
            ),
        }
    }
}

impl DecodeFailure {
    /// The diagnostic text of the failure.
    pub open spec fn message(self) -> Seq<char> {
        match self {
            DecodeFailure::InvalidValue(text) => text,
            DecodeFailure::UnexpectedEof => "unexpected EOF"@,
            DecodeFailure::UnconsumedBytes => "not all bytes were consumed"@,
            DecodeFailure::UnknownError(text) => "unknown error: "@ + text,
        }
    }
}

impl DeserializationError {
    /// The diagnostic text of the error.
    pub fn to_string(&self) -> (text: String)
        ensures
            text@ == self@.message(),
    {
        let mut text = String::new();
        match self {
            DeserializationError::InvalidValue(reason) => {
                push_text(&mut text, reason.as_str());
            },
            DeserializationError::UnexpectedEOF => {
                push_text(&mut text, "unexpected EOF");
            },
            DeserializationError::UnconsumedBytes => {
                push_text(&mut text, "not all bytes were consumed");
            },
            DeserializationError::UnknownError(reason) => {
                push_text(&mut text, "unknown error: ");
                push_text(&mut text, reason.as_str());
            },
        }
        text
    }
}

// ------------------------------------------------------------------------------------------------
// Little-endian integers
// ------------------------------------------------------------------------------------------------

/// The number that `bytes` stand for, least significant byte first.
pub open spec fn le_value(bytes: Seq<u8>) -> nat
    decreases bytes.len(),
{
    if bytes.len() == 0 {
        0
    } else {
        bytes[0] as nat + 256 * le_value(bytes.skip(1))
    }
}

/// The `len` least significant bytes of `v`, least significant first.
pub open spec fn le_bytes(v: nat, len: nat) -> Seq<u8>
    decreases len,
{
    if len == 0 {
        Seq::empty()
    } else {
        seq![(v % 256) as u8] + le_bytes(v / 256, (len - 1) as nat)
    }
}

/// The number of values that `len` bytes can hold: 256 to the power `len`.
pub open spec fn capacity(len: nat) -> nat
    decreases len,
{
    if len == 0 {
        1
    } else {
        256 * capacity((len - 1) as nat)
    }
}

/// `le_bytes` yields as many bytes as it is asked for.
pub proof fn lemma_le_bytes_len(v: nat, len: nat)
    ensures
        le_bytes(v, len).len() == len,
    decreases len,
{
    if len > 0 {
        lemma_le_bytes_len(v / 256, (len - 1) as nat);
    }
}

/// Reading back the bytes of a number that fits gives the number.
pub proof fn lemma_le_value_of_bytes(v: nat, len: nat)
    requires
        v < capacity(len),
    ensures
        le_value(le_bytes(v, len)) == v,
    decreases len,
{
    if len > 0 {
        let rest = le_bytes(v / 256, (len - 1) as nat);
        let all = le_bytes(v, len);
        lemma_le_value_of_bytes(v / 256, (len - 1) as nat);
        assert(all.skip(1) == rest);
        assert(all[0] == (v % 256) as u8);
    }
}

/// Any bytes stand for a number that fits in as many bytes.
pub proof fn lemma_le_value_bound(bytes: Seq<u8>)
    ensures
        le_value(bytes) < capacity(bytes.len()),
    decreases bytes.len(),
{
    if bytes.len() > 0 {
        lemma_le_value_bound(bytes.skip(1));
    }
}

/// Writing out the number that bytes stand for gives the bytes.
pub proof fn lemma_le_bytes_of_value(bytes: Seq<u8>)
    ensures
        le_bytes(le_value(bytes), bytes.len()) == bytes,
    decreases bytes.len(),
{
    if bytes.len() > 0 {
        let v = le_value(bytes);
        lemma_le_bytes_of_value(bytes.skip(1));
        assert(v % 256 == bytes[0] as nat);
        assert(v / 256 == le_value(bytes.skip(1)));
        assert(le_bytes(v, bytes.len()) =~= bytes);
    }
}

/// Eight bytes hold exactly the 64-bit numbers.
pub proof fn lemma_capacity_of_eight()
    ensures
        capacity(8) == 0x1_0000_0000_0000_0000,
{
    reveal_with_fuel(capacity, 9);
}

/// Appends the `len` least significant bytes of `v`, least significant first.
pub fn write_le(target: &mut Vec<u8>, v: u64, len: usize)
    requires
        len <= 8,
    ensures
        final(target)@ == old(target)@ + le_bytes(v as nat, len as nat),
{
    let mut rest: u64 = v;
    let mut i: usize = 0;
    while i < len
        invariant
            i <= len,
            target@ + le_bytes(rest as nat, (len - i) as nat) == old(target)@ + le_bytes(
                v as nat,
                len as nat,
            ),
        decreases len - i,
    {
        let ghost before = target@;
        target.push((rest % 256) as u8);
        proof {
            assert(before + le_bytes(rest as nat, (len - i) as nat) =~= target@ + le_bytes(
                (rest / 256) as nat,
                (len - i - 1) as nat,
            ));
        }
        rest = rest / 256;
        i += 1;
    }
    proof {
        assert(target@ + le_bytes(rest as nat, 0) =~= target@);
    }
}

/// Appends one byte.
pub fn write_u8(target: &mut Vec<u8>, v: u8)
    ensures
        final(target)@ == old(target)@.push(v),
{
    target.push(v);
}

/// Appends `v` as eight bytes, least significant first.
pub fn write_u64(target: &mut Vec<u8>, v: u64)
    ensures
        final(target)@ == old(target)@ + le_bytes(v as nat, 8),
{
    write_le(target, v, 8);
}

/// Whether `n` bytes stand at position `pos`.
pub open spec fn available(bytes: Seq<u8>, pos: int, n: int) -> bool {
    0 <= pos && pos + n <= bytes.len()
}

/// What reading one byte at `pos` gives: the byte and the position after it.
pub open spec fn decode_u8(bytes: Seq<u8>, pos: int) -> Result<(u8, int), DecodeFailure> {
    if available(bytes, pos, 1) {
        Ok((bytes[pos], pos + 1))
    } else {
        Err(DecodeFailure::UnexpectedEof)
    }
}

/// What reading a 64-bit number at `pos` gives.
pub open spec fn decode_u64(bytes: Seq<u8>, pos: int) -> Result<(u64, int), DecodeFailure> {
    if available(bytes, pos, 8) {
        Ok((le_value(bytes.subrange(pos, pos + 8)) as u64, pos + 8))
    } else {
        Err(DecodeFailure::UnexpectedEof)
    }
}

/// Reads one byte at `pos`.
pub fn read_u8(bytes: &[u8], pos: usize) -> (r: Result<(u8, usize), DeserializationError>)
    ensures
        match decode_u8(bytes@, pos as int) {
            Ok((v, next)) => r matches Ok((value, end)) && value == v && end == next,
            Err(failure) => r matches Err(e) && e@ == failure,
        },
{
    if pos < bytes.len() {
        Ok((bytes[pos], pos + 1))
    } else {
        Err(DeserializationError::UnexpectedEOF)
    }
}

/// The number that the `len` bytes at `pos` stand for, least significant byte first.
pub fn read_le(bytes: &[u8], pos: usize, len: usize) -> (value: u64)
    requires
        len <= 8,
        pos + len <= bytes.len(),
    ensures
        value as nat == le_value(bytes@.subrange(pos as int, pos + len)),
{
    let ghost chunk = bytes@.subrange(pos as int, pos + len);
    let mut value: u64 = 0;
    let mut i: usize = len;
    while i > 0
        invariant
            i <= len <= 8,
            pos + len <= bytes.len(),
            chunk == bytes@.subrange(pos as int, pos + len),
            value as nat == le_value(chunk.skip(i as int)),
        decreases i,
    {
        i -= 1;
        proof {
            let tail = chunk.skip(i as int);
            assert(tail.skip(1) == chunk.skip(i + 1));
            assert(tail[0] == bytes@[pos + i]);
            lemma_le_value_bound(tail);
            lemma_capacity_small(tail.len());
        }
        value = value * 256 + bytes[pos + i] as u64;
    }
    proof {
        assert(chunk.skip(0) == chunk);
    }
    value
}

/// Reads a 64-bit number, least significant byte first, at `pos`.
pub fn read_u64(bytes: &[u8], pos: usize) -> (r: Result<(u64, usize), DeserializationError>)
    ensures
        match decode_u64(bytes@, pos as int) {
            Ok((v, next)) => r matches Ok((value, end)) && value == v && end == next,
            Err(failure) => r matches Err(e) && e@ == failure,
        },
{
    if pos > bytes.len() || bytes.len() - pos < 8 {
        return Err(DeserializationError::UnexpectedEOF);
    }
    proof {
        lemma_le_value_bound(bytes@.subrange(pos as int, pos + 8));
        lemma_capacity_small(8);
    }
    Ok((read_le(bytes, pos, 8), pos + 8))
}

/// The capacities of up to eight bytes.
pub proof fn lemma_capacity_small(len: nat)
    requires
        len <= 8,
    ensures
        capacity(len) <= 0x1_0000_0000_0000_0000,
        len == 0 ==> capacity(len) == 1,
        len == 1 ==> capacity(len) == 0x100,
        len == 2 ==> capacity(len) == 0x1_0000,
        len == 3 ==> capacity(len) == 0x100_0000,
        len == 4 ==> capacity(len) == 0x1_0000_0000,
        len == 5 ==> capacity(len) == 0x100_0000_0000,
        len == 6 ==> capacity(len) == 0x1_0000_0000_0000,
        len == 7 ==> capacity(len) == 0x100_0000_0000_0000,
        len == 8 ==> capacity(len) == 0x1_0000_0000_0000_0000,
{
    reveal_with_fuel(capacity, 9);
}

// ------------------------------------------------------------------------------------------------
// Lengths, in a variable number of bytes
// ------------------------------------------------------------------------------------------------

/// The number of bytes that the length `v` takes: seven bits of the value for each byte,
/// up to eight bytes, and nine bytes beyond that.
pub open spec fn vint_len(v: nat) -> nat {
    if v < 0x80 {
        1
    } else if v < 0x4000 {
        2
    } else if v < 0x20_0000 {
        3
    } else if v < 0x1000_0000 {
        4
    } else if v < 0x8_0000_0000 {
        5
    } else if v < 0x400_0000_0000 {
        6
    } else if v < 0x2_0000_0000_0000 {
        7
    } else if v < 0x100_0000_0000_0000 {
        8
    } else {
        9
    }
}

/// The lowest set bit of the first byte of a length that takes `len` bytes.
pub open spec fn vint_marker(len: nat) -> nat {
    if len == 1 {
        1
    } else if len == 2 {
        2
    } else if len == 3 {
        4
    } else if len == 4 {
        8
    } else if len == 5 {
        16
    } else if len == 6 {
        32
    } else if len == 7 {
        64
    } else {
        128
    }
}

/// The bytes of the length `v`: the value above a marker bit whose position tells the number
/// of bytes; a zero byte and the eight bytes of the value where that is not enough.
pub open spec fn vint_bytes(v: nat) -> Seq<u8> {
    let len = vint_len(v);
    if len == 9 {
        seq![0u8] + le_bytes(v, 8)
    } else {
        le_bytes((2 * v + 1) * vint_marker(len), len)
    }
}

/// The number of bytes that a length takes whose first byte is `first`.
pub open spec fn vint_announced(first: u8) -> nat {
    if first % 2 == 1 {
        1
    } else if first % 4 == 2 {
        2
    } else if first % 8 == 4 {
        3
    } else if first % 16 == 8 {
        4
    } else if first % 32 == 16 {
        5
    } else if first % 64 == 32 {
        6
    } else if first % 128 == 64 {
        7
    } else if first == 128 {
        8
    } else {
        9
    }
}

/// The text of the error for a length that the machine cannot hold.
pub open spec fn oversized_message(v: nat) -> Seq<char> {
    "Encoded value must be less than "@ + decimal(usize::MAX as nat) + ", but "@ + decimal(v)
        + " was provided"@
}

/// What reading a length at `pos` gives.
pub open spec fn decode_usize(bytes: Seq<u8>, pos: int) -> Result<(usize, int), DecodeFailure> {
    if !available(bytes, pos, 1) {
        Err(DecodeFailure::UnexpectedEof)
    } else {
        let len = vint_announced(bytes[pos]);
        if !available(bytes, pos, len as int) {
            Err(DecodeFailure::UnexpectedEof)
        } else {
            let value: int = if len == 9 {
                le_value(bytes.subrange(pos + 1, pos + 9)) as int
            } else {
                (le_value(bytes.subrange(pos, pos + len)) as int) / (2 * vint_marker(len) as int)
            };
            if value > usize::MAX {
                Err(DecodeFailure::InvalidValue(oversized_message(value as nat)))
            } else {
                Ok((value as usize, pos + len))
            }
        }
    }
}

/// The length of `vint_bytes(v)` is `vint_len(v)`.
pub proof fn lemma_vint_bytes_len(v: nat)
    ensures
        vint_bytes(v).len() == vint_len(v),
        1 <= vint_len(v) <= 9,
{
    let len = vint_len(v);
    if len == 9 {
        lemma_le_bytes_len(v, 8);
    } else {
        lemma_le_bytes_len((2 * v + 1) * vint_marker(len), len);
    }
}

/// Reading back the bytes of a length gives the length.
pub proof fn lemma_decode_usize_of_bytes(bytes: Seq<u8>, pos: int, v: usize)
    requires
        0 <= pos,
        pos + vint_len(v as nat) <= bytes.len(),
        bytes.subrange(pos, pos + vint_len(v as nat)) == vint_bytes(v as nat),
    ensures
        decode_usize(bytes, pos) == Ok::<(usize, int), DecodeFailure>(
            (v, pos + vint_len(v as nat)),
        ),
{
    let len = vint_len(v as nat);
    let chunk = bytes.subrange(pos, pos + len);
    lemma_vint_bytes_len(v as nat);
    assert(bytes[pos] == chunk[0]);
    if len == 9 {
        let tail = le_bytes(v as nat, 8);
        lemma_le_bytes_len(v as nat, 8);
        assert(chunk[0] == 0u8);
        assert(bytes.subrange(pos + 1, pos + 9) =~= tail) by {
            assert forall|i: int| 0 <= i < 8 implies bytes.subrange(pos + 1, pos + 9)[i]
                == tail[i] by {
                assert(chunk[i + 1] == tail[i]);
            }
        }
        lemma_capacity_small(8);
        lemma_le_value_of_bytes(v as nat, 8);
    } else {
        let marker: int = vint_marker(len) as int;
        let packed: int = (2 * v + 1) * marker;
        lemma_vint_packed(v as nat);
        lemma_le_value_of_bytes(packed as nat, len);
        lemma_le_bytes_len(packed as nat, len);
        assert(chunk[0] == (packed % 256) as u8);
    }
}

/// The arithmetic of a length that takes up to eight bytes: the value and its marker fit in
/// the bytes, the first byte tells their number, and the value stands above the marker.
proof fn lemma_vint_packed(v: nat)
    requires
        vint_len(v) < 9,
    ensures
        ({
            let len = vint_len(v);
            let marker = vint_marker(len) as int;
            let packed = (2 * (v as int) + 1) * marker;
            &&& 0 <= packed < capacity(len)
            &&& packed < 0x1_0000_0000_0000_0000
            &&& packed / (2 * marker) == v
            &&& vint_announced((packed % 256) as u8) == len
        }),
{
    let len = vint_len(v);
    lemma_capacity_small(len);
    if len == 1 {
        let packed: int = (2 * (v as int) + 1) * 1;
        assert(packed / 2 == v);
        assert(packed % 256 % 2 == 1);
    } else if len == 2 {
        let packed: int = (2 * (v as int) + 1) * 2;
        assert(packed / 4 == v);
        assert(packed % 256 % 4 == 2);
    } else if len == 3 {
        let packed: int = (2 * (v as int) + 1) * 4;
        assert(packed / 8 == v);
        assert(packed % 256 % 8 == 4);
    } else if len == 4 {
        let packed: int = (2 * (v as int) + 1) * 8;
        assert(packed / 16 == v);
        assert(packed % 256 % 16 == 8);
    } else if len == 5 {
        let packed: int = (2 * (v as int) + 1) * 16;
        assert(packed / 32 == v);
        assert(packed % 256 % 32 == 16);
    } else if len == 6 {
        let packed: int = (2 * (v as int) + 1) * 32;
        assert(packed / 64 == v);
        assert(packed % 256 % 64 == 32);
    } else if len == 7 {
        let packed: int = (2 * (v as int) + 1) * 64;
        assert(packed / 128 == v);
        assert(packed % 256 % 128 == 64);
    } else {
        let packed: int = (2 * (v as int) + 1) * 128;
        assert(packed / 256 == v);
        assert(packed % 256 == 128);
    }
}

/// The number of bytes that the length `v` takes.
pub fn usize_encoded_len(v: usize) -> (len: usize)
    ensures
        len == vint_len(v as nat),
{
    let v: u64 = v as u64;
    if v < 0x80 {
        1
    } else if v < 0x4000 {
        2
    } else if v < 0x20_0000 {
        3
    } else if v < 0x1000_0000 {
        4
    } else if v < 0x8_0000_0000 {
        5
    } else if v < 0x400_0000_0000 {
        6
    } else if v < 0x2_0000_0000_0000 {
        7
    } else if v < 0x100_0000_0000_0000 {
        8
    } else {
        9
    }
}

/// The marker bit of a length that takes `len` bytes.
fn marker_of(len: usize) -> (marker: u64)
    requires
        1 <= len <= 8,
    ensures
        marker == vint_marker(len as nat),
{
    if len == 1 {
        1
    } else if len == 2 {
        2
    } else if len == 3 {
        4
    } else if len == 4 {
        8
    } else if len == 5 {
        16
    } else if len == 6 {
        32
    } else if len == 7 {
        64
    } else {
        128
    }
}

/// Appends the length `v`.
pub fn write_usize(target: &mut Vec<u8>, v: usize)
    ensures
        final(target)@ == old(target)@ + vint_bytes(v as nat),
{
    let len = usize_encoded_len(v);
    if len == 9 {
        target.push(0u8);
        write_le(target, v as u64, 8);
        proof {
            assert(target@ =~= old(target)@ + (seq![0u8] + le_bytes(v as nat, 8)));
        }
    } else {
        proof {
            lemma_vint_packed(v as nat);
        }
        let packed: u64 = (2 * (v as u64) + 1) * marker_of(len);
        write_le(target, packed, len);
    }
}

/// The number of bytes that a length takes whose first byte is `first`.
fn announced_len(first: u8) -> (len: usize)
    ensures
        len == vint_announced(first),
        1 <= len <= 9,
{
    if first % 2 == 1 {
        1
    } else if first % 4 == 2 {
        2
    } else if first % 8 == 4 {
        3
    } else if first % 16 == 8 {
        4
    } else if first % 32 == 16 {
        5
    } else if first % 64 == 32 {
        6
    } else if first % 128 == 64 {
        7
    } else if first == 128 {
        8
    } else {
        9
    }
}

/// Reads a length at `pos`.
pub fn read_usize(bytes: &[u8], pos: usize) -> (r: Result<(usize, usize), DeserializationError>)
    ensures
        match decode_usize(bytes@, pos as int) {
            Ok((v, next)) => r matches Ok((value, end)) && value == v && end == next,
            Err(failure) => r matches Err(e) && e@ == failure,
        },
{
    if pos >= bytes.len() {
        return Err(DeserializationError::UnexpectedEOF);
    }
    let len = announced_len(bytes[pos]);
    if bytes.len() - pos < len {
        return Err(DeserializationError::UnexpectedEOF);
    }
    let value: u64 = if len == 9 {
        read_le(bytes, pos + 1, 8)
    } else {
        read_le(bytes, pos, len) / (2 * marker_of(len))
    };
    if value > usize::MAX as u64 {
        let mut text = String::new();
        push_text(&mut text, "Encoded value must be less than ");
        push_decimal(&mut text, usize::MAX as u64);
        push_text(&mut text, ", but ");
        push_decimal(&mut text, value);
        push_text(&mut text, " was provided");
        proof {
            assert(text@ =~= oversized_message(value as nat));
        }
        return Err(DeserializationError::InvalidValue(text));
    }
    Ok((value as usize, pos + len))
}

// ------------------------------------------------------------------------------------------------
// Field elements and words
// ------------------------------------------------------------------------------------------------

/// The text of the error for a number that is no canonical field element: one wording where
/// a word is read, another where a digest is.
pub open spec fn out_of_range_message(v: u64, in_digest: bool) -> Seq<char> {
    if in_digest {
        "Value not in the appropriate range"@
    } else {
        "invalid field element: value "@ + decimal(v as nat)
            + " is greater than or equal to the field modulus"@
    }
}

/// What reading a field element at `pos` gives: its canonical integer.
pub open spec fn decode_felt(bytes: Seq<u8>, pos: int, in_digest: bool) -> Result<
    (u64, int),
    DecodeFailure,
> {
    match decode_u64(bytes, pos) {
        Err(failure) => Err(failure),
        Ok((v, next)) => if v >= MODULUS {
            Err(DecodeFailure::InvalidValue(out_of_range_message(v, in_digest)))
        } else {
            Ok((v, next))
        },
    }
}

/// What reading four field elements at `pos` gives: their canonical integers.
pub open spec fn decode_word(bytes: Seq<u8>, pos: int, in_digest: bool) -> Result<
    (Seq<u64>, int),
    DecodeFailure,
> {
    match decode_felt(bytes, pos, in_digest) {
        Err(failure) => Err(failure),
        Ok((a, at_b)) => match decode_felt(bytes, at_b, in_digest) {
            Err(failure) => Err(failure),
            Ok((b, at_c)) => match decode_felt(bytes, at_c, in_digest) {
                Err(failure) => Err(failure),
                Ok((c, at_d)) => match decode_felt(bytes, at_d, in_digest) {
                    Err(failure) => Err(failure),
                    Ok((d, end)) => Ok((seq![a, b, c, d], end)),
                },
            },
        },
    }
}

/// The 32 bytes of four field elements given by their integers.
pub open spec fn word_bytes(ints: Seq<u64>) -> Seq<u8> {
    le_bytes(ints[0] as nat, 8) + le_bytes(ints[1] as nat, 8) + le_bytes(ints[2] as nat, 8)
        + le_bytes(ints[3] as nat, 8)
}

/// Whether `ints` are the integers of four canonical field elements.
pub open spec fn canonical_ints(ints: Seq<u64>) -> bool {
    &&& ints.len() == 4
    &&& ints[0] < MODULUS
    &&& ints[1] < MODULUS
    &&& ints[2] < MODULUS
    &&& ints[3] < MODULUS
}

/// A word takes 32 bytes.
pub proof fn lemma_word_bytes_len(ints: Seq<u64>)
    ensures
        word_bytes(ints).len() == 32,
{
    lemma_le_bytes_len(ints[0] as nat, 8);
    lemma_le_bytes_len(ints[1] as nat, 8);
    lemma_le_bytes_len(ints[2] as nat, 8);
    lemma_le_bytes_len(ints[3] as nat, 8);
}

/// Reading back the bytes of a 64-bit number gives the number.
pub proof fn lemma_decode_u64_of_bytes(bytes: Seq<u8>, pos: int, v: u64)
    requires
        0 <= pos,
        pos + 8 <= bytes.len(),
        bytes.subrange(pos, pos + 8) == le_bytes(v as nat, 8),
    ensures
        decode_u64(bytes, pos) == Ok::<(u64, int), DecodeFailure>((v, pos + 8)),
{
    lemma_capacity_small(8);
    lemma_le_value_of_bytes(v as nat, 8);
}

/// Reading back the bytes of a word of canonical elements gives the word.
pub proof fn lemma_decode_word_of_bytes(bytes: Seq<u8>, pos: int, ints: Seq<u64>, in_digest: bool)
    requires
        0 <= pos,
        pos + 32 <= bytes.len(),
        canonical_ints(ints),
        bytes.subrange(pos, pos + 32) == word_bytes(ints),
    ensures
        decode_word(bytes, pos, in_digest) == Ok::<(Seq<u64>, int), DecodeFailure>(
            (ints, pos + 32),
        ),
{
    let chunk = bytes.subrange(pos, pos + 32);
    lemma_le_bytes_len(ints[0] as nat, 8);
    lemma_le_bytes_len(ints[1] as nat, 8);
    lemma_le_bytes_len(ints[2] as nat, 8);
    lemma_le_bytes_len(ints[3] as nat, 8);
    assert forall|k: int| 0 <= k < 4 implies #[trigger] bytes.subrange(pos + 8 * k, pos + 8 * k + 8)
        == le_bytes(ints[k] as nat, 8) by {
        let part = bytes.subrange(pos + 8 * k, pos + 8 * k + 8);
        assert(part =~= chunk.subrange(8 * k, 8 * k + 8));
        assert(chunk.subrange(8 * k, 8 * k + 8) =~= le_bytes(ints[k] as nat, 8));
    }
    assert(bytes.subrange(pos + 8 * 0, pos + 8 * 0 + 8) == le_bytes(ints[0] as nat, 8));
    assert(bytes.subrange(pos + 8 * 1, pos + 8 * 1 + 8) == le_bytes(ints[1] as nat, 8));
    assert(bytes.subrange(pos + 8 * 2, pos + 8 * 2 + 8) == le_bytes(ints[2] as nat, 8));
    assert(bytes.subrange(pos + 8 * 3, pos + 8 * 3 + 8) == le_bytes(ints[3] as nat, 8));
    lemma_decode_u64_of_bytes(bytes, pos, ints[0]);
    lemma_decode_u64_of_bytes(bytes, pos + 8, ints[1]);
    lemma_decode_u64_of_bytes(bytes, pos + 16, ints[2]);
    lemma_decode_u64_of_bytes(bytes, pos + 24, ints[3]);
    assert(seq![ints[0], ints[1], ints[2], ints[3]] =~= ints);
}

/// Appends a field element: the eight bytes of its canonical integer.
pub fn write_felt(target: &mut Vec<u8>, felt: Felt)
    ensures
        final(target)@ == old(target)@ + le_bytes(felt@ as nat, 8),
{
    write_u64(target, felt.as_int());
}

/// Appends the four elements of a word.
pub fn write_word(target: &mut Vec<u8>, word: &Word)
    ensures
        final(target)@ == old(target)@ + word_bytes(word_ints(*word)),
{
    write_felt(target, word[0]);
    write_felt(target, word[1]);
    write_felt(target, word[2]);
    write_felt(target, word[3]);
    proof {
        let ints = word_ints(*word);
        assert(target@ =~= old(target)@ + word_bytes(ints));
    }
}

/// Reads a field element at `pos`; `in_digest` chooses the wording of the error.
fn read_element(bytes: &[u8], pos: usize, in_digest: bool) -> (r: Result<
    (Felt, usize),
    DeserializationError,
>)
    ensures
        match decode_felt(bytes@, pos as int, in_digest) {
            Ok((v, next)) => r matches Ok((felt, end)) && felt@ == v && end == next,
            Err(failure) => r matches Err(e) && e@ == failure,
        },
{
    let (v, next) = match read_u64(bytes, pos) {
        Err(e) => {
            return Err(e);
        },
        Ok(read) => read,
    };
    if v >= MODULUS {
        let mut text = String::new();
        if in_digest {
            push_text(&mut text, "Value not in the appropriate range");
        } else {
            push_text(&mut text, "invalid field element: value ");
            push_decimal(&mut text, v);
            push_text(&mut text, " is greater than or equal to the field modulus");
        }
        proof {
            assert(text@ =~= out_of_range_message(v, in_digest));
        }
        Err(DeserializationError::InvalidValue(text))
    } else {
        Ok((Felt::new(v), next))
    }
}

/// Reads four field elements at `pos`; `in_digest` chooses the wording of the error.
fn read_elements(bytes: &[u8], pos: usize, in_digest: bool) -> (r: Result<
    (Word, usize),
    DeserializationError,
>)
    ensures
        match decode_word(bytes@, pos as int, in_digest) {
            Ok((ints, next)) => r matches Ok((word, end)) && word_ints(word) == ints && end == next,
            Err(failure) => r matches Err(e) && e@ == failure,
        },
{
    let (a, at_b) = match read_element(bytes, pos, in_digest) {
        Err(e) => { return Err(e); },
        Ok(read) => read,
    };
    let (b, at_c) = match read_element(bytes, at_b, in_digest) {
        Err(e) => { return Err(e); },
        Ok(read) => read,
    };
    let (c, at_d) = match read_element(bytes, at_c, in_digest) {
        Err(e) => { return Err(e); },
        Ok(read) => read,
    };
    let (d, end) = match read_element(bytes, at_d, in_digest) {
        Err(e) => { return Err(e); },
        Ok(read) => read,
    };
    let word = [a, b, c, d];
    proof {
        assert(word_ints(word) =~= seq![a@, b@, c@, d@]);
    }
    Ok((word, end))
}

/// Reads a field element at `pos`.
pub fn read_felt(bytes: &[u8], pos: usize) -> (r: Result<(Felt, usize), DeserializationError>)
    ensures
        match decode_felt(bytes@, pos as int, false) {
            Ok((v, next)) => r matches Ok((felt, end)) && felt@ == v && end == next,
            Err(failure) => r matches Err(e) && e@ == failure,
        },
{
    read_element(bytes, pos, false)
}

/// Reads a word at `pos`.
pub fn read_word(bytes: &[u8], pos: usize) -> (r: Result<(Word, usize), DeserializationError>)
    ensures
        match decode_word(bytes@, pos as int, false) {
            Ok((ints, next)) => r matches Ok((word, end)) && word_ints(word) == ints && end == next,
            Err(failure) => r matches Err(e) && e@ == failure,
        },
{
    read_elements(bytes, pos, false)
}

/// Reads the four elements of a digest at `pos`.
pub fn read_digest_word(bytes: &[u8], pos: usize) -> (r: Result<
    (Word, usize),
    DeserializationError,
>)
    ensures
        match decode_word(bytes@, pos as int, true) {
            Ok((ints, next)) => r matches Ok((word, end)) && word_ints(word) == ints && end == next,
            Err(failure) => r matches Err(e) && e@ == failure,
        },
{
    read_elements(bytes, pos, true)
}

} // verus!
