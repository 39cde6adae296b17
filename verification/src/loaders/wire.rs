//! The wire format of the primitive values, as functions on byte sequences.
//!
//! All multi-byte integers are little-endian. Signed integers are two's
//! complement.

use vstd::prelude::*;
use vstd::utf8::{encode_utf8, is_ascii_chars, is_ascii_chars_encode_utf8};

verus! {

/// The bytes of `piece` stand in `data` from position `at` on.
#[verifier::opaque]
pub open spec fn holds_at(data: Seq<u8>, at: int, piece: Seq<u8>) -> bool {
    &&& 0 <= at
    &&& at + piece.len() <= data.len()
    &&& forall|i: int| 0 <= i < piece.len() ==> #[trigger] data[at + i] == piece[i]
}

/// What stands at `at` lies inside `data`.
pub proof fn lemma_holds_at_bounds(data: Seq<u8>, at: int, piece: Seq<u8>)
    requires
        holds_at(data, at, piece),
    ensures
        0 <= at,
        at + piece.len() <= data.len(),
{
    reveal(holds_at);
}

/// What stands at `at` has its bytes there, one by one.
pub proof fn lemma_holds_at_index(data: Seq<u8>, at: int, piece: Seq<u8>, index: int)
    requires
        holds_at(data, at, piece),
        0 <= index < piece.len(),
    ensures
        data[at + index] == piece[index],
{
    reveal(holds_at);
}

/// Where `first + second` stands at `at`, `first` stands at `at` and `second`
/// right behind it.
pub proof fn lemma_holds_at_split(data: Seq<u8>, at: int, first: Seq<u8>, second: Seq<u8>)
    requires
        holds_at(data, at, first + second),
    ensures
        holds_at(data, at, first),
        holds_at(data, at + first.len(), second),
{
    reveal(holds_at);
    let whole = first + second;
    assert forall|i: int| 0 <= i < first.len() implies #[trigger] data[at + i] == first[i] by {
        assert(whole[i] == first[i]);
    }
    assert forall|i: int| 0 <= i < second.len() implies #[trigger] data[at + first.len() + i]
        == second[i] by {
        assert(whole[first.len() + i] == second[i]);
        assert(data[at + (first.len() + i)] == whole[first.len() + i]);
    }
}

/// What stands in `data` before position `end` stands in the beginning of
/// `data` up to `end`.
pub proof fn lemma_holds_at_take(data: Seq<u8>, end: int, at: int, piece: Seq<u8>)
    requires
        holds_at(data, at, piece),
        at + piece.len() <= end <= data.len(),
    ensures
        holds_at(data.take(end), at, piece),
{
    reveal(holds_at);
    let front = data.take(end);
    assert forall|i: int| 0 <= i < piece.len() implies #[trigger] front[at + i] == piece[i] by {
        assert(data[at + i] == piece[i]);
    }
}

/// A whole number of items of `size` bytes each has as many bytes as it has,
/// and no byte is left over.
pub proof fn lemma_count_of_multiple(count: nat, size: nat)
    requires
        size > 0,
    ensures
        (count * size) / size == count,
        (count * size) % size == 0,
{
    vstd::arithmetic::div_mod::lemma_fundamental_div_mod_converse(
        (count * size) as int,
        size as int,
        count as int,
        0,
    );
}

/// A sequence stands at position 0 of itself followed by anything.
pub proof fn lemma_holds_at_front(piece: Seq<u8>, rest: Seq<u8>)
    ensures
        holds_at(piece + rest, 0, piece),
{
    reveal(holds_at);
    let data = piece + rest;
    assert forall|i: int| 0 <= i < piece.len() implies #[trigger] data[0 + i] == piece[i] by {}
}

/// The unsigned 16-bit integer whose two bytes begin at `at`.
pub open spec fn u16_at(data: Seq<u8>, at: int) -> u16 {
    (data[at] as int + 0x100 * (data[at + 1] as int)) as u16
}

/// The unsigned 32-bit integer whose four bytes begin at `at`.
pub open spec fn u32_at(data: Seq<u8>, at: int) -> u32 {
    (u16_at(data, at) as int + 0x1_0000 * (u16_at(data, at + 2) as int)) as u32
}

/// The unsigned 64-bit integer whose eight bytes begin at `at`.
pub open spec fn u64_at(data: Seq<u8>, at: int) -> u64 {
    (u32_at(data, at) as int + 0x1_0000_0000 * (u32_at(data, at + 4) as int)) as u64
}

/// The two bytes of an unsigned 16-bit integer.
pub open spec fn u16_bytes(value: u16) -> Seq<u8> {
    seq![(value % 0x100) as u8, (value / 0x100) as u8]
}

/// The four bytes of an unsigned 32-bit integer.
pub open spec fn u32_bytes(value: u32) -> Seq<u8> {
    u16_bytes((value % 0x1_0000) as u16) + u16_bytes((value / 0x1_0000) as u16)
}

/// The eight bytes of an unsigned 64-bit integer.
pub open spec fn u64_bytes(value: u64) -> Seq<u8> {
    u32_bytes((value % 0x1_0000_0000) as u32) + u32_bytes((value / 0x1_0000_0000) as u32)
}

/// The signed reading of a byte.
pub open spec fn i8_of(value: u8) -> i8 {
    if value < 0x80 {
        value as i8
    } else {
        (value - 0x100) as i8
    }
}

/// The signed reading of 16 bits.
pub open spec fn i16_of(value: u16) -> i16 {
    if value < 0x8000 {
        value as i16
    } else {
        (value - 0x1_0000) as i16
    }
}

/// The signed reading of 32 bits.
pub open spec fn i32_of(value: u32) -> i32 {
    if value < 0x8000_0000 {
        value as i32
    } else {
        (value - 0x1_0000_0000) as i32
    }
}

/// The signed reading of 64 bits.
pub open spec fn i64_of(value: u64) -> i64 {
    if value < 0x8000_0000_0000_0000 {
        value as i64
    } else {
        (value - 0x1_0000_0000_0000_0000) as i64
    }
}

/// The byte that reads as a signed value.
pub open spec fn u8_of(value: i8) -> u8 {
    if value >= 0 {
        value as u8
    } else {
        (value + 0x100) as u8
    }
}

/// The 16 bits that read as a signed value.
pub open spec fn u16_of(value: i16) -> u16 {
    if value >= 0 {
        value as u16
    } else {
        (value + 0x1_0000) as u16
    }
}

/// The 32 bits that read as a signed value.
pub open spec fn u32_of(value: i32) -> u32 {
    if value >= 0 {
        value as u32
    } else {
        (value + 0x1_0000_0000) as u32
    }
}

/// The 64 bits that read as a signed value.
pub open spec fn u64_of(value: i64) -> u64 {
    if value >= 0 {
        value as u64
    } else {
        (value + 0x1_0000_0000_0000_0000) as u64
    }
}

/// Reading the two bytes of an integer gives the integer back.
pub proof fn lemma_u16_round_trip(value: u16, data: Seq<u8>, at: int)
    requires
        holds_at(data, at, u16_bytes(value)),
    ensures
        u16_at(data, at) == value,
{
    reveal(holds_at);
    let bytes = u16_bytes(value);
    assert(data[at + 0] == bytes[0]);
    assert(data[at + 1] == bytes[1]);
}

/// Reading the four bytes of an integer gives the integer back.
pub proof fn lemma_u32_round_trip(value: u32, data: Seq<u8>, at: int)
    requires
        holds_at(data, at, u32_bytes(value)),
    ensures
        u32_at(data, at) == value,
{
    reveal(holds_at);
    let low = (value % 0x1_0000) as u16;
    let high = (value / 0x1_0000) as u16;
    lemma_holds_at_split(data, at, u16_bytes(low), u16_bytes(high));
    lemma_u16_round_trip(low, data, at);
    lemma_u16_round_trip(high, data, at + 2);
}

/// Reading the eight bytes of an integer gives the integer back.
pub proof fn lemma_u64_round_trip(value: u64, data: Seq<u8>, at: int)
    requires
        holds_at(data, at, u64_bytes(value)),
    ensures
        u64_at(data, at) == value,
{
    reveal(holds_at);
    let low = (value % 0x1_0000_0000) as u32;
    let high = (value / 0x1_0000_0000) as u32;
    lemma_holds_at_split(data, at, u32_bytes(low), u32_bytes(high));
    lemma_u32_round_trip(low, data, at);
    lemma_u32_round_trip(high, data, at + 4);
}

/// The signed and the unsigned reading are inverse to each other.
pub proof fn lemma_signed_round_trip()
    ensures
        forall|value: i8| i8_of(#[trigger] u8_of(value)) == value,
        forall|value: i16| i16_of(#[trigger] u16_of(value)) == value,
        forall|value: i32| i32_of(#[trigger] u32_of(value)) == value,
        forall|value: i64| i64_of(#[trigger] u64_of(value)) == value,
        forall|value: u8| u8_of(#[trigger] i8_of(value)) == value,
        forall|value: u16| u16_of(#[trigger] i16_of(value)) == value,
        forall|value: u32| u32_of(#[trigger] i32_of(value)) == value,
        forall|value: u64| u64_of(#[trigger] i64_of(value)) == value,
{
}

/// The number of bytes of a text field of `width` bytes at `at` that stand
/// before its first zero byte: all of them where it holds none.
pub open spec fn text_length(data: Seq<u8>, at: int, width: nat) -> nat
    decreases width,
{
    if width == 0 || data[at] == 0 {
        0
    } else {
        1 + text_length(data, at + 1, (width - 1) as nat)
    }
}

/// The text of a field of `width` bytes at `at`: one character for each byte
/// before the first zero byte.
pub open spec fn text_at(data: Seq<u8>, at: int, width: nat) -> Seq<char> {
    Seq::new(text_length(data, at, width), |i: int| data[at + i] as char)
}

/// Text that a field can hold and give back: ASCII without the zero character.
pub open spec fn plain_text(text: Seq<char>) -> bool {
    forall|i: int| 0 <= i < text.len() ==> '\u{1}' <= #[trigger] text[i] <= '\u{7f}'
}

/// One byte for each character of a text.
pub open spec fn text_bytes(text: Seq<char>) -> Seq<u8> {
    Seq::new(text.len(), |i: int| text[i] as u8)
}

/// The bytes of a plain text in UTF-8 are its characters, one byte for each.
pub proof fn lemma_plain_text_bytes(text: Seq<char>)
    requires
        plain_text(text),
    ensures
        encode_utf8(text) == text_bytes(text),
{
    assert(is_ascii_chars(text)) by {
        assert forall|i: int| 0 <= i < text.len() implies '\0' <= #[trigger] text[i]
            <= '\u{7f}' by {
            assert('\u{1}' <= text[i] <= '\u{7f}');
        }
    }
    is_ascii_chars_encode_utf8(text);
    assert(encode_utf8(text) =~= text_bytes(text));
}

/// A run of zero bytes.
pub open spec fn zeros(count: nat) -> Seq<u8> {
    Seq::new(count, |i: int| 0u8)
}

/// A field's text has `length` bytes where none of its first `length` bytes is
/// zero and the field ends there or a zero byte follows.
pub proof fn lemma_text_length(data: Seq<u8>, at: int, width: nat, length: nat)
    requires
        length <= width,
        forall|i: int| 0 <= i < length ==> #[trigger] data[at + i] != 0,
        length == width || data[at + length] == 0,
    ensures
        text_length(data, at, width) == length,
    decreases width,
{
    if width == 0 {
    } else if length == 0 {
    } else {
        assert(data[at + 0] != 0);
        assert forall|i: int| 0 <= i < length - 1 implies #[trigger] data[at + 1 + i] != 0 by {
            assert(data[at + (i + 1)] != 0);
        }
        lemma_text_length(data, at + 1, (width - 1) as nat, (length - 1) as nat);
    }
}

/// Reading a field that holds a plain text, padded with zero bytes, gives the
/// text back.
pub proof fn lemma_text_round_trip(text: Seq<char>, width: nat, data: Seq<u8>, at: int)
    requires
        plain_text(text),
        text.len() <= width,
        holds_at(data, at, text_bytes(text) + zeros((width - text.len()) as nat)),
    ensures
        text_at(data, at, width) == text,
{
    reveal(holds_at);
    let field = text_bytes(text) + zeros((width - text.len()) as nat);
    assert forall|i: int| 0 <= i < text.len() implies #[trigger] data[at + i] != 0 by {
        assert(data[at + i] == field[i]);
        assert(field[i] == text[i] as u8);
        assert('\u{1}' <= text[i] <= '\u{7f}');
    }
    if text.len() < width {
        assert(data[at + text.len()] == field[text.len() as int]);
    }
    lemma_text_length(data, at, width, text.len());
    assert forall|i: int| 0 <= i < text.len() implies text_at(data, at, width)[i] == text[i] by {
        assert(data[at + i] == field[i]);
        assert('\u{1}' <= text[i] <= '\u{7f}');
    }
    assert(text_at(data, at, width) =~= text);
}

} // verus!
