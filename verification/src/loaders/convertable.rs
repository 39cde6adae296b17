//! The codec of wire values: what every protocol value can do.
//!
//! A value decodes from a byte cursor under an optional length hint and encodes
//! back to bytes. What both do is stated over the model of the value and over
//! two functions on byte sequences, `decoding` and `encoding`.

use vstd::array::array_fill_for_copy_types;
use vstd::prelude::*;
use vstd::slice::slice_to_vec;
use vstd::utf8::encode_utf8;

use crate::loaders::stream::{ByteStream, ConversionError};
use crate::loaders::wire::{
    holds_at, i16_of, i32_of, i64_of, i8_of, lemma_count_of_multiple, lemma_holds_at_bounds,
    lemma_holds_at_index, lemma_holds_at_split, lemma_signed_round_trip, lemma_text_length,
    lemma_plain_text_bytes, lemma_text_round_trip, lemma_u16_round_trip, lemma_u32_round_trip,
    lemma_u64_round_trip, plain_text, text_at, text_bytes, text_length, u16_at, u16_bytes, u16_of,
    u32_at, u32_bytes, u32_of, u64_at, u64_bytes, u64_of, u8_of, zeros,
};

verus! {

/// A value with a wire form.
pub trait ByteConvertable: Sized {
    /// The mathematical value that a value of the type stands for.
    type Model;

    spec fn model(&self) -> Self::Model;

    /// The hints under which the type decodes and encodes.
    spec fn accepts(length_hint: Option<usize>) -> bool;

    /// What the bytes of `data` from position `at` on decode to: the value and
    /// the number of bytes that it spans, or the reason why there is none.
    spec fn decoding(data: Seq<u8>, at: int, length_hint: Option<usize>) -> Result<
        (Self::Model, nat),
        ConversionError,
    >;

    /// The values that have a wire form.
    spec fn encodable(value: Self::Model, length_hint: Option<usize>) -> bool;

    /// The values that come back from their wire form as they are. Every value
    /// does, unless the type says otherwise.
    open spec fn faithful(value: Self::Model, length_hint: Option<usize>) -> bool {
        true
    }

    /// The wire form of a value.
    spec fn encoding(value: Self::Model, length_hint: Option<usize>) -> Seq<u8>;

    /// Decodes the value at the cursor and moves the cursor behind it. Where
    /// there is none the cursor stays.
    fn from_bytes(byte_stream: &mut ByteStream, length_hint: Option<usize>) -> (result: Result<
        Self,
        ConversionError,
    >)
        requires
            Self::accepts(length_hint),
        ensures
            final(byte_stream).data() == old(byte_stream).data(),
            final(byte_stream).version() == old(byte_stream).version(),
            match Self::decoding(
                old(byte_stream).data(),
                old(byte_stream).offset() as int,
                length_hint,
            ) {
                Ok((value, length)) => {
                    &&& result is Ok
                    &&& result->Ok_0.model() == value
                    &&& final(byte_stream).offset() == old(byte_stream).offset() + length
                },
                Err(error) => {
                    &&& result is Err
                    &&& result->Err_0 == error
                    &&& final(byte_stream).offset() == old(byte_stream).offset()
                },
            },
    ;

    fn to_bytes(&self, length_hint: Option<usize>) -> (bytes: Vec<u8>)
        requires
            Self::accepts(length_hint),
            Self::encodable(self.model(), length_hint),
        ensures
            bytes@ == Self::encoding(self.model(), length_hint),
    ;

    /// Decoding the wire form of a faithful value gives the value back and
    /// spans the whole wire form, whatever follows it.
    proof fn lemma_round_trip(
        value: Self::Model,
        length_hint: Option<usize>,
        data: Seq<u8>,
        at: int,
    )
        requires
            Self::accepts(length_hint),
            Self::encodable(value, length_hint),
            Self::faithful(value, length_hint),
            holds_at(data, at, Self::encoding(value, length_hint)),
        ensures
            Self::decoding(data, at, length_hint) == Ok::<(Self::Model, nat), ConversionError>(
                (value, Self::encoding(value, length_hint).len()),
            ),
    ;
}

/// A value whose wire form has one length, known without decoding.
pub trait FixedByteSize: ByteConvertable {
    /// The length of the wire form.
    spec fn size() -> nat;

    fn size_in_bytes() -> (size: usize)
        ensures
            size == Self::size(),
    ;

    /// Every decoded value spans `size()` bytes, and every wire form has that
    /// length.
    proof fn lemma_fixed_size(data: Seq<u8>, at: int, value: Self::Model)
        ensures
            Self::decoding(data, at, None) matches Ok((_, length)) ==> length == Self::size(),
            Self::encodable(value, None) ==> Self::encoding(value, None).len() == Self::size(),
    ;
}

impl ByteConvertable for u8 {
    type Model = u8;

    open spec fn model(&self) -> u8 {
        *self
    }

    open spec fn accepts(length_hint: Option<usize>) -> bool {
        length_hint is None
    }

    open spec fn decoding(data: Seq<u8>, at: int, length_hint: Option<usize>) -> Result<
        (u8, nat),
        ConversionError,
    > {
        if at + 1 > data.len() {
            Err(ConversionError::Incomplete)
        } else {
            Ok((data[at], 1))
        }
    }

    open spec fn encodable(value: u8, length_hint: Option<usize>) -> bool {
        true
    }

    open spec fn encoding(value: u8, length_hint: Option<usize>) -> Seq<u8> {
        seq![value]
    }

    fn from_bytes(byte_stream: &mut ByteStream, length_hint: Option<usize>) -> (result: Result<
        Self,
        ConversionError,
    >) {
        byte_stream.read_u8()
    }

    fn to_bytes(&self, length_hint: Option<usize>) -> (bytes: Vec<u8>) {
        let mut bytes = Vec::new();
        bytes.push(*self);
        assert(bytes@ =~= seq![*self]);
        bytes
    }

    proof fn lemma_round_trip(value: u8, length_hint: Option<usize>, data: Seq<u8>, at: int) {
        lemma_holds_at_bounds(data, at, seq![value]);
        lemma_holds_at_index(data, at, seq![value], 0);
    }
}

impl FixedByteSize for u8 {
    open spec fn size() -> nat {
        1
    }

    fn size_in_bytes() -> (size: usize) {
        1
    }

    proof fn lemma_fixed_size(data: Seq<u8>, at: int, value: u8) {
        assert(Self::size() == 1);
    }
}

impl ByteConvertable for u16 {
    type Model = u16;

    open spec fn model(&self) -> u16 {
        *self
    }

    open spec fn accepts(length_hint: Option<usize>) -> bool {
        length_hint is None
    }

    open spec fn decoding(data: Seq<u8>, at: int, length_hint: Option<usize>) -> Result<
        (u16, nat),
        ConversionError,
    > {
        if at + 2 > data.len() {
            Err(ConversionError::Incomplete)
        } else {
            Ok((u16_at(data, at), 2))
        }
    }

    open spec fn encodable(value: u16, length_hint: Option<usize>) -> bool {
        true
    }

    open spec fn encoding(value: u16, length_hint: Option<usize>) -> Seq<u8> {
        u16_bytes(value)
    }

    fn from_bytes(byte_stream: &mut ByteStream, length_hint: Option<usize>) -> (result: Result<
        Self,
        ConversionError,
    >) {
        byte_stream.read_u16()
    }

    fn to_bytes(&self, length_hint: Option<usize>) -> (bytes: Vec<u8>) {
        let mut bytes = Vec::new();
        bytes.push((*self % 0x100) as u8);
        bytes.push((*self / 0x100) as u8);
        assert(bytes@ =~= u16_bytes(*self));
        assert(self.model() == *self);
        assert(Self::encoding(*self, length_hint) == u16_bytes(*self));
        bytes
    }

    proof fn lemma_round_trip(value: u16, length_hint: Option<usize>, data: Seq<u8>, at: int) {
        lemma_holds_at_bounds(data, at, u16_bytes(value));
        lemma_u16_round_trip(value, data, at);
    }
}

impl FixedByteSize for u16 {
    open spec fn size() -> nat {
        2
    }

    fn size_in_bytes() -> (size: usize) {
        2
    }

    proof fn lemma_fixed_size(data: Seq<u8>, at: int, value: u16) {
        assert(Self::size() == 2);
    }
}

impl ByteConvertable for u32 {
    type Model = u32;

    open spec fn model(&self) -> u32 {
        *self
    }

    open spec fn accepts(length_hint: Option<usize>) -> bool {
        length_hint is None
    }

    open spec fn decoding(data: Seq<u8>, at: int, length_hint: Option<usize>) -> Result<
        (u32, nat),
        ConversionError,
    > {
        if at + 4 > data.len() {
            Err(ConversionError::Incomplete)
        } else {
            Ok((u32_at(data, at), 4))
        }
    }

    open spec fn encodable(value: u32, length_hint: Option<usize>) -> bool {
        true
    }

    open spec fn encoding(value: u32, length_hint: Option<usize>) -> Seq<u8> {
        u32_bytes(value)
    }

    fn from_bytes(byte_stream: &mut ByteStream, length_hint: Option<usize>) -> (result: Result<
        Self,
        ConversionError,
    >) {
        byte_stream.read_u32()
    }

    fn to_bytes(&self, length_hint: Option<usize>) -> (bytes: Vec<u8>) {
        let low = (*self % 0x1_0000) as u16;
        let high = (*self / 0x1_0000) as u16;
        let mut bytes = low.to_bytes(None);
        let mut piece = high.to_bytes(None);
        assert(u16::encoding(low.model(), None) == u16_bytes(low));
        assert(u16::encoding(high.model(), None) == u16_bytes(high));
        bytes.append(&mut piece);
        assert(Self::encoding(self.model(), length_hint) == u32_bytes(*self));
        bytes
    }

    proof fn lemma_round_trip(value: u32, length_hint: Option<usize>, data: Seq<u8>, at: int) {
        lemma_holds_at_bounds(data, at, u32_bytes(value));
        lemma_u32_round_trip(value, data, at);
    }
}

impl FixedByteSize for u32 {
    open spec fn size() -> nat {
        4
    }

    fn size_in_bytes() -> (size: usize) {
        4
    }

    proof fn lemma_fixed_size(data: Seq<u8>, at: int, value: u32) {
        assert(Self::size() == 4);
    }
}

impl ByteConvertable for u64 {
    type Model = u64;

    open spec fn model(&self) -> u64 {
        *self
    }

    open spec fn accepts(length_hint: Option<usize>) -> bool {
        length_hint is None
    }

    open spec fn decoding(data: Seq<u8>, at: int, length_hint: Option<usize>) -> Result<
        (u64, nat),
        ConversionError,
    > {
        if at + 8 > data.len() {
            Err(ConversionError::Incomplete)
        } else {
            Ok((u64_at(data, at), 8))
        }
    }

    open spec fn encodable(value: u64, length_hint: Option<usize>) -> bool {
        true
    }

    open spec fn encoding(value: u64, length_hint: Option<usize>) -> Seq<u8> {
        u64_bytes(value)
    }

    fn from_bytes(byte_stream: &mut ByteStream, length_hint: Option<usize>) -> (result: Result<
        Self,
        ConversionError,
    >) {
        byte_stream.read_u64()
    }

    fn to_bytes(&self, length_hint: Option<usize>) -> (bytes: Vec<u8>) {
        let low = (*self % 0x1_0000_0000) as u32;
        let high = (*self / 0x1_0000_0000) as u32;
        let mut bytes = low.to_bytes(None);
        let mut piece = high.to_bytes(None);
        assert(u32::encoding(low.model(), None) == u32_bytes(low));
        assert(u32::encoding(high.model(), None) == u32_bytes(high));
        bytes.append(&mut piece);
        assert(Self::encoding(self.model(), length_hint) == u64_bytes(*self));
        bytes
    }

    proof fn lemma_round_trip(value: u64, length_hint: Option<usize>, data: Seq<u8>, at: int) {
        lemma_holds_at_bounds(data, at, u64_bytes(value));
        lemma_u64_round_trip(value, data, at);
    }
}

impl FixedByteSize for u64 {
    open spec fn size() -> nat {
        8
    }

    fn size_in_bytes() -> (size: usize) {
        8
    }

    proof fn lemma_fixed_size(data: Seq<u8>, at: int, value: u64) {
        assert(Self::size() == 8);
    }
}

impl ByteConvertable for i8 {
    type Model = i8;

    open spec fn model(&self) -> i8 {
        *self
    }

    open spec fn accepts(length_hint: Option<usize>) -> bool {
        length_hint is None
    }

    open spec fn decoding(data: Seq<u8>, at: int, length_hint: Option<usize>) -> Result<
        (i8, nat),
        ConversionError,
    > {
        if at + 1 > data.len() {
            Err(ConversionError::Incomplete)
        } else {
            Ok((i8_of(data[at]), 1))
        }
    }

    open spec fn encodable(value: i8, length_hint: Option<usize>) -> bool {
        true
    }

    open spec fn encoding(value: i8, length_hint: Option<usize>) -> Seq<u8> {
        seq![u8_of(value)]
    }

    fn from_bytes(byte_stream: &mut ByteStream, length_hint: Option<usize>) -> (result: Result<
        Self,
        ConversionError,
    >) {
        byte_stream.read_i8()
    }

    fn to_bytes(&self, length_hint: Option<usize>) -> (bytes: Vec<u8>) {
        let bits: u8 = if *self >= 0 {
            *self as u8
        } else {
            ((*self + i8::MAX) + 1) as u8 + 0x80
        };
        bits.to_bytes(None)
    }

    proof fn lemma_round_trip(value: i8, length_hint: Option<usize>, data: Seq<u8>, at: int) {
        lemma_signed_round_trip();
        lemma_holds_at_bounds(data, at, seq![u8_of(value)]);
        lemma_holds_at_index(data, at, seq![u8_of(value)], 0);
    }
}

impl FixedByteSize for i8 {
    open spec fn size() -> nat {
        1
    }

    fn size_in_bytes() -> (size: usize) {
        1
    }

    proof fn lemma_fixed_size(data: Seq<u8>, at: int, value: i8) {
        assert(Self::size() == 1);
    }
}

impl ByteConvertable for i16 {
    type Model = i16;

    open spec fn model(&self) -> i16 {
        *self
    }

    open spec fn accepts(length_hint: Option<usize>) -> bool {
        length_hint is None
    }

    open spec fn decoding(data: Seq<u8>, at: int, length_hint: Option<usize>) -> Result<
        (i16, nat),
        ConversionError,
    > {
        if at + 2 > data.len() {
            Err(ConversionError::Incomplete)
        } else {
            Ok((i16_of(u16_at(data, at)), 2))
        }
    }

    open spec fn encodable(value: i16, length_hint: Option<usize>) -> bool {
        true
    }

    open spec fn encoding(value: i16, length_hint: Option<usize>) -> Seq<u8> {
        u16_bytes(u16_of(value))
    }

    fn from_bytes(byte_stream: &mut ByteStream, length_hint: Option<usize>) -> (result: Result<
        Self,
        ConversionError,
    >) {
        byte_stream.read_i16()
    }

    fn to_bytes(&self, length_hint: Option<usize>) -> (bytes: Vec<u8>) {
        let bits: u16 = if *self >= 0 {
            *self as u16
        } else {
            ((*self + i16::MAX) + 1) as u16 + 0x8000
        };
        bits.to_bytes(None)
    }

    proof fn lemma_round_trip(value: i16, length_hint: Option<usize>, data: Seq<u8>, at: int) {
        lemma_signed_round_trip();
        lemma_holds_at_bounds(data, at, u16_bytes(u16_of(value)));
        lemma_u16_round_trip(u16_of(value), data, at);
    }
}

impl FixedByteSize for i16 {
    open spec fn size() -> nat {
        2
    }

    fn size_in_bytes() -> (size: usize) {
        2
    }

    proof fn lemma_fixed_size(data: Seq<u8>, at: int, value: i16) {
        assert(Self::size() == 2);
    }
}

impl ByteConvertable for i32 {
    type Model = i32;

    open spec fn model(&self) -> i32 {
        *self
    }

    open spec fn accepts(length_hint: Option<usize>) -> bool {
        length_hint is None
    }

    open spec fn decoding(data: Seq<u8>, at: int, length_hint: Option<usize>) -> Result<
        (i32, nat),
        ConversionError,
    > {
        if at + 4 > data.len() {
            Err(ConversionError::Incomplete)
        } else {
            Ok((i32_of(u32_at(data, at)), 4))
        }
    }

    open spec fn encodable(value: i32, length_hint: Option<usize>) -> bool {
        true
    }

    open spec fn encoding(value: i32, length_hint: Option<usize>) -> Seq<u8> {
        u32_bytes(u32_of(value))
    }

    fn from_bytes(byte_stream: &mut ByteStream, length_hint: Option<usize>) -> (result: Result<
        Self,
        ConversionError,
    >) {
        byte_stream.read_i32()
    }

    fn to_bytes(&self, length_hint: Option<usize>) -> (bytes: Vec<u8>) {
        let bits: u32 = if *self >= 0 {
            *self as u32
        } else {
            ((*self + i32::MAX) + 1) as u32 + 0x8000_0000
        };
        bits.to_bytes(None)
    }

    proof fn lemma_round_trip(value: i32, length_hint: Option<usize>, data: Seq<u8>, at: int) {
        lemma_signed_round_trip();
        lemma_holds_at_bounds(data, at, u32_bytes(u32_of(value)));
        lemma_u32_round_trip(u32_of(value), data, at);
    }
}

impl FixedByteSize for i32 {
    open spec fn size() -> nat {
        4
    }

    fn size_in_bytes() -> (size: usize) {
        4
    }

    proof fn lemma_fixed_size(data: Seq<u8>, at: int, value: i32) {
        assert(Self::size() == 4);
    }
}

impl ByteConvertable for i64 {
    type Model = i64;

    open spec fn model(&self) -> i64 {
        *self
    }

    open spec fn accepts(length_hint: Option<usize>) -> bool {
        length_hint is None
    }

    open spec fn decoding(data: Seq<u8>, at: int, length_hint: Option<usize>) -> Result<
        (i64, nat),
        ConversionError,
    > {
        if at + 8 > data.len() {
            Err(ConversionError::Incomplete)
        } else {
            Ok((i64_of(u64_at(data, at)), 8))
        }
    }

    open spec fn encodable(value: i64, length_hint: Option<usize>) -> bool {
        true
    }

    open spec fn encoding(value: i64, length_hint: Option<usize>) -> Seq<u8> {
        u64_bytes(u64_of(value))
    }

    fn from_bytes(byte_stream: &mut ByteStream, length_hint: Option<usize>) -> (result: Result<
        Self,
        ConversionError,
    >) {
        byte_stream.read_i64()
    }

    fn to_bytes(&self, length_hint: Option<usize>) -> (bytes: Vec<u8>) {
        let bits: u64 = if *self >= 0 {
            *self as u64
        } else {
            ((*self + i64::MAX) + 1) as u64 + 0x8000_0000_0000_0000
        };
        bits.to_bytes(None)
    }

    proof fn lemma_round_trip(value: i64, length_hint: Option<usize>, data: Seq<u8>, at: int) {
        lemma_signed_round_trip();
        lemma_holds_at_bounds(data, at, u64_bytes(u64_of(value)));
        lemma_u64_round_trip(u64_of(value), data, at);
    }
}

impl FixedByteSize for i64 {
    open spec fn size() -> nat {
        8
    }

    fn size_in_bytes() -> (size: usize) {
        8
    }

    proof fn lemma_fixed_size(data: Seq<u8>, at: int, value: i64) {
        assert(Self::size() == 8);
    }
}

/// The position behind a decoded value, which begins at `at`.
pub open spec fn behind<T>(at: int, result: Result<(T, nat), ConversionError>) -> int {
    match result {
        Ok((_, length)) => at + length,
        Err(_) => at,
    }
}

/// The models of the values of a sequence.
pub open spec fn models<T: ByteConvertable>(items: Seq<T>) -> Seq<T::Model> {
    Seq::new(items.len(), |i: int| items[i].model())
}

/// What `count` values of one type, one behind the other from position `at`
/// on, decode to: the values and the number of bytes that they span together,
/// or the error of the first value that does not decode.
pub open spec fn repeated_decoding<T: ByteConvertable>(
    data: Seq<u8>,
    at: int,
    count: nat,
) -> Result<
    (Seq<T::Model>, nat),
    ConversionError,
>
    decreases count,
{
    if count == 0 {
        Ok((Seq::empty(), 0))
    } else {
        match repeated_decoding::<T>(data, at, (count - 1) as nat) {
            Err(error) => Err(error),
            Ok((items, length)) => match T::decoding(data, at + length, None) {
                Err(error) => Err(error),
                Ok((item, more)) => Ok((items.push(item), length + more)),
            },
        }
    }
}

/// Every value of the sequence has a wire form.
pub open spec fn all_encodable<T: ByteConvertable>(items: Seq<T::Model>) -> bool {
    forall|i: int| 0 <= i < items.len() ==> T::encodable(#[trigger] items[i], None)
}

/// Every value of the sequence comes back from its wire form as it is.
pub open spec fn all_faithful<T: ByteConvertable>(items: Seq<T::Model>) -> bool {
    forall|i: int| 0 <= i < items.len() ==> T::faithful(#[trigger] items[i], None)
}

/// The wire forms of the values of a sequence, one behind the other.
pub open spec fn repeated_encoding<T: ByteConvertable>(items: Seq<T::Model>) -> Seq<u8>
    decreases items.len(),
{
    if items.len() == 0 {
        Seq::empty()
    } else {
        repeated_encoding::<T>(items.drop_last()) + T::encoding(items.last(), None)
    }
}

/// A value that does not decode stops every longer run at the same error.
pub proof fn lemma_repeated_error<T: ByteConvertable>(
    data: Seq<u8>,
    at: int,
    shorter: nat,
    longer: nat,
)
    requires
        shorter <= longer,
        repeated_decoding::<T>(data, at, shorter) is Err,
    ensures
        repeated_decoding::<T>(data, at, longer) == repeated_decoding::<T>(data, at, shorter),
    decreases longer,
{
    if shorter < longer {
        lemma_repeated_error::<T>(data, at, shorter, (longer - 1) as nat);
    }
}

/// Decoding the wire forms of a sequence of faithful values gives the values
/// back.
pub proof fn lemma_repeated_round_trip<T: ByteConvertable>(
    items: Seq<T::Model>,
    data: Seq<u8>,
    at: int,
)
    requires
        T::accepts(None),
        all_encodable::<T>(items),
        all_faithful::<T>(items),
        holds_at(data, at, repeated_encoding::<T>(items)),
    ensures
        repeated_decoding::<T>(data, at, items.len()) == Ok::<
            (Seq<T::Model>, nat),
            ConversionError,
        >(
            (items, repeated_encoding::<T>(items).len()),
        ),
    decreases items.len(),
{
    if items.len() > 0 {
        let front = items.drop_last();
        let front_bytes = repeated_encoding::<T>(front);
        lemma_holds_at_split(data, at, front_bytes, T::encoding(items.last(), None));
        lemma_repeated_round_trip::<T>(front, data, at);
        T::lemma_round_trip(items.last(), None, data, at + front_bytes.len());
        assert(front.push(items.last()) =~= items);
        assert((items.len() - 1) as nat == front.len());
    } else {
        assert(items =~= Seq::<T::Model>::empty());
    }
}

/// The wire forms of values of a fixed size have the length of all of them.
pub proof fn lemma_repeated_size<T: FixedByteSize>(data: Seq<u8>, at: int, items: Seq<T::Model>)
    ensures
        repeated_decoding::<T>(data, at, items.len()) matches Ok((_, length)) ==> length
            == items.len() * T::size(),
        all_encodable::<T>(items) ==> repeated_encoding::<T>(items).len() == items.len()
            * T::size(),
    decreases items.len(),
{
    if items.len() > 0 {
        let front = items.drop_last();
        assert((items.len() - 1) as nat == front.len());
        lemma_repeated_size::<T>(data, at, front);
        assert(items.len() * T::size() == front.len() * T::size() + T::size()) by (nonlinear_arith)
            requires
                items.len() == front.len() + 1,
        ;
        T::lemma_fixed_size(data, at, items.last());
        match repeated_decoding::<T>(data, at, front.len()) {
            Ok((_, length)) => {
                T::lemma_fixed_size(data, at + length, items.last());
            },
            Err(_) => {},
        }
    } else {
        assert(items.len() * T::size() == 0) by (nonlinear_arith)
            requires
                items.len() == 0,
        ;
    }
}

/// The number of values of a type of fixed size that `length` bytes hold, where
/// they hold a whole number of them.
#[verifier::opaque]
pub open spec fn whole_count<T: FixedByteSize>(length: int) -> Option<nat> {
    if T::size() > 0 && length >= 0 && length % (T::size() as int) == 0 {
        Some((length / (T::size() as int)) as nat)
    } else {
        None
    }
}

/// The bytes of `count` values hold `count` values.
pub proof fn lemma_whole_count<T: FixedByteSize>(count: nat)
    requires
        T::size() > 0,
    ensures
        whole_count::<T>((count * T::size()) as int) == Some(count),
{
    reveal(whole_count);
    lemma_count_of_multiple(count, T::size());
}

/// A whole number of values is at most the number of bytes that hold them.
pub proof fn lemma_whole_count_bound<T: FixedByteSize>(length: int)
    ensures
        whole_count::<T>(length) matches Some(count) ==> count <= length,
{
    reveal(whole_count);
    if whole_count::<T>(length) is Some {
        vstd::arithmetic::div_mod::lemma_div_is_ordered_by_denominator(length, 1, T::size() as int);
        vstd::arithmetic::div_mod::lemma_div_basics(length);
    }
}

/// Counts the values of a type of fixed size that `length` bytes hold.
pub fn count_whole<T: FixedByteSize>(length: usize) -> (count: Option<usize>)
    ensures
        match whole_count::<T>(length as int) {
            Some(values) => count == Some(values as usize) && values <= length,
            None => count is None,
        },
{
    proof {
        reveal(whole_count);
        lemma_whole_count_bound::<T>(length as int);
    }
    let size = T::size_in_bytes();
    if size == 0 || length % size != 0 {
        None
    } else {
        Some(length / size)
    }
}

/// Decodes `count` values, one behind the other.
pub fn decode_repeated<T: ByteConvertable>(byte_stream: &mut ByteStream, count: usize) -> (result:
    Result<Vec<T>, ConversionError>)
    requires
        T::accepts(None),
    ensures
        final(byte_stream).data() == old(byte_stream).data(),
        final(byte_stream).version() == old(byte_stream).version(),
        match repeated_decoding::<T>(
            old(byte_stream).data(),
            old(byte_stream).offset() as int,
            count as nat,
        ) {
            Ok((items, length)) => {
                &&& result is Ok
                &&& result->Ok_0@.len() == count
                &&& models(result->Ok_0@) == items
                &&& final(byte_stream).offset() == old(byte_stream).offset() + length
            },
            Err(error) => {
                &&& result is Err
                &&& result->Err_0 == error
                &&& final(byte_stream).offset() == old(byte_stream).offset()
            },
        },
{
    let mut cursor = byte_stream.fork();
    let mut items: Vec<T> = Vec::new();
    let ghost data = byte_stream.data();
    let ghost start = byte_stream.offset() as int;
    assert(models(items@) =~= Seq::<T::Model>::empty());
    let mut index: usize = 0;
    while index < count
        invariant
            T::accepts(None),
            index <= count,
            items@.len() == index,
            *byte_stream == *old(byte_stream),
            data == byte_stream.data(),
            start == byte_stream.offset(),
            cursor.data() == data,
            cursor.version() == byte_stream.version(),
            cursor.offset() >= start,
            repeated_decoding::<T>(data, start, index as nat) == Ok::<
                (Seq<T::Model>, nat),
                ConversionError,
            >((models(items@), (cursor.offset() - start) as nat)),
        decreases count - index,
    {
        let ghost before = models(items@);
        match T::from_bytes(&mut cursor, None) {
            Ok(item) => {
                items.push(item);
                assert(models(items@) =~= before.push(item.model()));
            },
            Err(error) => {
                proof {
                    assert(((index + 1) as nat - 1) as nat == index as nat);
                    assert(repeated_decoding::<T>(data, start, (index + 1) as nat) == Err::<
                        (Seq<T::Model>, nat),
                        ConversionError,
                    >(error));
                    lemma_repeated_error::<T>(data, start, (index + 1) as nat, count as nat);
                }
                return Err(error);
            },
        }
        index = index + 1;
    }
    byte_stream.follow(&cursor);
    Ok(items)
}

/// Encodes the values of a slice, one behind the other.
fn encode_each<T: ByteConvertable>(items: &[T]) -> (bytes: Vec<u8>)
    requires
        T::accepts(None),
        all_encodable::<T>(models(items@)),
    ensures
        bytes@ == repeated_encoding::<T>(models(items@)),
{
    let mut bytes: Vec<u8> = Vec::new();
    let mut index: usize = 0;
    while index < items.len()
        invariant
            T::accepts(None),
            all_encodable::<T>(models(items@)),
            index <= items.len(),
            bytes@ == repeated_encoding::<T>(models(items@).take(index as int)),
        decreases items.len() - index,
    {
        let ghost all = models(items@);
        assert(T::encodable(all[index as int], None));
        let mut piece = items[index].to_bytes(None);
        bytes.append(&mut piece);
        proof {
            assert(all.take(index + 1).drop_last() =~= all.take(index as int));
            assert(all.take(index + 1).last() == items[index as int].model());
        }
        index = index + 1;
    }
    assert(models(items@).take(index as int) =~= models(items@));
    bytes
}

/// Encodes the values of a list, one behind the other.
pub fn encode_repeated<T: ByteConvertable>(items: &Vec<T>) -> (bytes: Vec<u8>)
    requires
        T::accepts(None),
        all_encodable::<T>(models(items@)),
    ensures
        bytes@ == repeated_encoding::<T>(models(items@)),
{
    encode_each::<T>(items.as_slice())
}

/// Encodes the values of an array, one behind the other.
pub fn encode_fixed<T: ByteConvertable, const N: usize>(items: &[T; N]) -> (bytes: Vec<u8>)
    requires
        T::accepts(None),
        all_encodable::<T>(models(items@)),
    ensures
        bytes@ == repeated_encoding::<T>(models(items@)),
{
    encode_each::<T>(items.as_slice())
}

/// Decodes the `N` values of an array, one behind the other. The array holds
/// at least one value.
pub fn decode_fixed<T: ByteConvertable + Copy, const N: usize>(
    byte_stream: &mut ByteStream,
) -> (result: Result<[T; N], ConversionError>)
    requires
        T::accepts(None),
        N > 0,
    ensures
        final(byte_stream).data() == old(byte_stream).data(),
        final(byte_stream).version() == old(byte_stream).version(),
        match repeated_decoding::<T>(
            old(byte_stream).data(),
            old(byte_stream).offset() as int,
            N as nat,
        ) {
            Ok((items, length)) => {
                &&& result is Ok
                &&& models(result->Ok_0@) == items
                &&& final(byte_stream).offset() == old(byte_stream).offset() + length
            },
            Err(error) => {
                &&& result is Err
                &&& result->Err_0 == error
                &&& final(byte_stream).offset() == old(byte_stream).offset()
            },
        },
{
    let items = decode_repeated::<T>(byte_stream, N)?;
    let mut array: [T; N] = array_fill_for_copy_types(items[0]);
    let mut index: usize = 0;
    while index < N
        invariant
            index <= N,
            items@.len() == N,
            forall|place: int| 0 <= place < index ==> array@[place] == items@[place],
        decreases N - index,
    {
        array[index] = items[index];
        index = index + 1;
    }
    assert(array@ =~= items@);
    Ok(array)
}

/// Decodes the three values of an array, one behind the other.
pub fn decode_three<T: ByteConvertable>(byte_stream: &mut ByteStream) -> (result: Result<
    [T; 3],
    ConversionError,
>)
    requires
        T::accepts(None),
    ensures
        final(byte_stream).data() == old(byte_stream).data(),
        final(byte_stream).version() == old(byte_stream).version(),
        match repeated_decoding::<T>(
            old(byte_stream).data(),
            old(byte_stream).offset() as int,
            3,
        ) {
            Ok((items, length)) => {
                &&& result is Ok
                &&& models(result->Ok_0@) == items
                &&& final(byte_stream).offset() == old(byte_stream).offset() + length
            },
            Err(error) => {
                &&& result is Err
                &&& result->Err_0 == error
                &&& final(byte_stream).offset() == old(byte_stream).offset()
            },
        },
{
    let mut items = decode_repeated::<T>(byte_stream, 3)?;
    let ghost all = items@;
    let first = items.remove(0);
    let second = items.remove(0);
    let third = items.remove(0);
    let array = [first, second, third];
    assert(array@ =~= all);
    Ok(array)
}

/// Text. A hint is the width of the field that holds the text: the text ends
/// at the first zero byte of the field or with the field. Without a hint the
/// text runs up to a zero byte that ends it.
impl ByteConvertable for String {
    type Model = Seq<char>;

    open spec fn model(&self) -> Seq<char> {
        self@
    }

    open spec fn accepts(length_hint: Option<usize>) -> bool {
        true
    }

    open spec fn decoding(data: Seq<u8>, at: int, length_hint: Option<usize>) -> Result<
        (Seq<char>, nat),
        ConversionError,
    > {
        match length_hint {
            Some(width) => {
                if at + width > data.len() {
                    Err(ConversionError::Incomplete)
                } else {
                    Ok((text_at(data, at, width as nat), width as nat))
                }
            },
            None => {
                let rest = (data.len() - at) as nat;
                if at + text_length(data, at, rest) >= data.len() {
                    Err(ConversionError::Incomplete)
                } else {
                    Ok((text_at(data, at, rest), text_length(data, at, rest) + 1))
                }
            },
        }
    }

    /// A text has a wire form where its bytes fit the field.
    open spec fn encodable(value: Seq<char>, length_hint: Option<usize>) -> bool {
        length_hint matches Some(width) ==> encode_utf8(value).len() <= width
    }

    /// A plain text comes back as it is. Another text may read differently: a
    /// field is read one character for each byte, up to its first zero byte.
    open spec fn faithful(value: Seq<char>, length_hint: Option<usize>) -> bool {
        plain_text(value)
    }

    /// The bytes of the text in UTF-8, followed by zero bytes: as many as fill
    /// the field, or one where the field has no width.
    open spec fn encoding(value: Seq<char>, length_hint: Option<usize>) -> Seq<u8> {
        match length_hint {
            Some(width) => encode_utf8(value) + zeros((width - encode_utf8(value).len()) as nat),
            None => encode_utf8(value) + seq![0u8],
        }
    }

    fn from_bytes(byte_stream: &mut ByteStream, length_hint: Option<usize>) -> (result: Result<
        Self,
        ConversionError,
    >) {
        match length_hint {
            Some(width) => byte_stream.read_string(width),
            None => {
                let ghost data = byte_stream.data();
                let ghost at = byte_stream.offset() as int;
                let rest = byte_stream.remaining_length();
                let mut cursor = byte_stream.fork();
                let mut text = String::new();
                let mut index: usize = 0;
                loop
                    invariant
                        length_hint is None,
                        *byte_stream == *old(byte_stream),
                        data == byte_stream.data(),
                        at == byte_stream.offset(),
                        rest == data.len() - at,
                        cursor.data() == data,
                        cursor.offset() == at + index,
                        index <= rest,
                        forall|i: int| 0 <= i < index ==> #[trigger] data[at + i] != 0,
                        text@ == Seq::new(index as nat, |i: int| data[at + i] as char),
                    decreases rest - index,
                {
                    match cursor.next() {
                        Ok(byte) => {
                            if byte == 0 {
                                proof {
                                    lemma_text_length(data, at, rest as nat, index as nat);
                                }
                                byte_stream.follow(&cursor);
                                return Ok(text);
                            }
                            text.push(byte as char);
                            index = index + 1;
                            assert(text@ =~= Seq::new(index as nat, |i: int| data[at + i] as char));
                        },
                        Err(error) => {
                            proof {
                                lemma_text_length(data, at, rest as nat, index as nat);
                            }
                            return Err(error);
                        },
                    }
                }
            },
        }
    }

    fn to_bytes(&self, length_hint: Option<usize>) -> (bytes: Vec<u8>) {
        let mut bytes = slice_to_vec(self.as_str().as_bytes());
        let ghost text = encode_utf8(self@);
        assert(bytes@ == text);
        match length_hint {
            Some(width) => {
                assert(bytes@ =~= text + zeros(0));
                while bytes.len() < width
                    invariant
                        text.len() <= bytes@.len() <= width,
                        bytes@ == text + zeros((bytes@.len() - text.len()) as nat),
                    decreases width - bytes.len(),
                {
                    bytes.push(0);
                    assert(bytes@ =~= text + zeros((bytes@.len() - text.len()) as nat));
                }
            },
            None => {
                bytes.push(0);
                assert(bytes@ =~= text + seq![0u8]);
            },
        }
        bytes
    }

    proof fn lemma_round_trip(
        value: Seq<char>,
        length_hint: Option<usize>,
        data: Seq<u8>,
        at: int,
    ) {
        lemma_plain_text_bytes(value);
        match length_hint {
            Some(width) => {
                lemma_holds_at_bounds(data, at, Self::encoding(value, length_hint));
                lemma_text_round_trip(value, width as nat, data, at);
            },
            None => {
                reveal(holds_at);
                let rest = (data.len() - at) as nat;
                let field = text_bytes(value) + seq![0u8];
                assert forall|i: int| 0 <= i < value.len() implies #[trigger] data[at + i]
                    != 0 by {
                    assert(data[at + i] == field[i]);
                    assert('\u{1}' <= value[i] <= '\u{7f}');
                }
                assert(data[at + value.len()] == field[value.len() as int]);
                lemma_text_length(data, at, rest, value.len());
                assert forall|i: int| 0 <= i < value.len() implies text_at(data, at, rest)[i]
                    == value[i] by {
                    assert(data[at + i] == field[i]);
                    assert('\u{1}' <= value[i] <= '\u{7f}');
                }
                assert(text_at(data, at, rest) =~= value);
            },
        }
    }
}

/// The array that holds the values of a sequence, in their order.
pub open spec fn array_of<T, const N: usize>(items: Seq<T>) -> [T; N] {
    choose|array: [T; N]| array@ == items
}

/// An array is the array of its values.
pub proof fn lemma_array_of<T, const N: usize>(array: [T; N])
    ensures
        array_of::<T, N>(array@) == array,
{
    let chosen = array_of::<T, N>(array@);
    assert(chosen@ == array@);
    assert(chosen =~= array);
}

/// The field of `N` zero bytes.
pub open spec fn zeroed<const N: usize>() -> [u8; N] {
    array_of::<u8, N>(Seq::new(N as nat, |i: int| 0u8))
}

/// A field of zero bytes is the field of zero bytes.
pub proof fn lemma_zeroed<const N: usize>(array: [u8; N])
    requires
        forall|i: int| 0 <= i < N ==> array@[i] == 0,
    ensures
        array == zeroed::<N>(),
{
    assert(array@ =~= Seq::new(N as nat, |i: int| 0u8));
    lemma_array_of::<u8, N>(array);
}

/// Decodes `N` values of a type that is its own model into an array.
fn decode_array<T: ByteConvertable<Model = T> + Copy, const N: usize>(
    byte_stream: &mut ByteStream,
    filler: T,
) -> (result: Result<[T; N], ConversionError>)
    requires
        T::accepts(None),
        forall|item: T| #[trigger] item.model() == item,
    ensures
        final(byte_stream).data() == old(byte_stream).data(),
        final(byte_stream).version() == old(byte_stream).version(),
        match repeated_decoding::<T>(
            old(byte_stream).data(),
            old(byte_stream).offset() as int,
            N as nat,
        ) {
            Ok((items, length)) => {
                &&& result is Ok
                &&& result->Ok_0 == array_of::<T, N>(items)
                &&& final(byte_stream).offset() == old(byte_stream).offset() + length
            },
            Err(error) => {
                &&& result is Err
                &&& result->Err_0 == error
                &&& final(byte_stream).offset() == old(byte_stream).offset()
            },
        },
{
    let items = decode_repeated::<T>(byte_stream, N)?;
    assert(models(items@) =~= items@);
    let mut array: [T; N] = array_fill_for_copy_types(filler);
    let mut index: usize = 0;
    while index < N
        invariant
            index <= N,
            items@.len() == N,
            forall|i: int| 0 <= i < index ==> array@[i] == items@[i],
        decreases N - index,
    {
        array[index] = items[index];
        index = index + 1;
    }
    proof {
        assert(array@ =~= items@);
        lemma_array_of::<T, N>(array);
    }
    Ok(array)
}

/// Encodes the values of an array of a type that is its own model.
fn encode_array<T: ByteConvertable<Model = T> + Copy, const N: usize>(array: &[T; N]) -> (bytes:
    Vec<u8>)
    requires
        T::accepts(None),
        forall|item: T| #[trigger] item.model() == item,
        all_encodable::<T>(array@),
    ensures
        bytes@ == repeated_encoding::<T>(array@),
{
    let mut items: Vec<T> = Vec::new();
    let mut index: usize = 0;
    while index < N
        invariant
            index <= N,
            items@ == array@.take(index as int),
        decreases N - index,
    {
        items.push(array[index]);
        assert(items@ =~= array@.take(index + 1));
        index = index + 1;
    }
    assert(items@ =~= array@);
    assert(models(items@) =~= array@);
    encode_repeated::<T>(&items)
}

/// A field of `N` bytes.
impl<const N: usize> ByteConvertable for [u8; N] {
    type Model = [u8; N];

    open spec fn model(&self) -> [u8; N] {
        *self
    }

    open spec fn accepts(length_hint: Option<usize>) -> bool {
        length_hint is None
    }

    open spec fn decoding(data: Seq<u8>, at: int, length_hint: Option<usize>) -> Result<
        ([u8; N], nat),
        ConversionError,
    > {
        match repeated_decoding::<u8>(data, at, N as nat) {
            Ok((items, length)) => Ok((array_of::<u8, N>(items), length)),
            Err(error) => Err(error),
        }
    }

    open spec fn encodable(value: [u8; N], length_hint: Option<usize>) -> bool {
        true
    }

    open spec fn encoding(value: [u8; N], length_hint: Option<usize>) -> Seq<u8> {
        repeated_encoding::<u8>(value@)
    }

    fn from_bytes(byte_stream: &mut ByteStream, length_hint: Option<usize>) -> (result: Result<
        Self,
        ConversionError,
    >) {
        decode_array::<u8, N>(byte_stream, 0)
    }

    fn to_bytes(&self, length_hint: Option<usize>) -> (bytes: Vec<u8>) {
        encode_array::<u8, N>(self)
    }

    proof fn lemma_round_trip(value: [u8; N], length_hint: Option<usize>, data: Seq<u8>, at: int) {
        lemma_repeated_round_trip::<u8>(value@, data, at);
        lemma_array_of::<u8, N>(value);
    }
}

impl<const N: usize> FixedByteSize for [u8; N] {
    open spec fn size() -> nat {
        N as nat
    }

    fn size_in_bytes() -> (size: usize) {
        N
    }

    proof fn lemma_fixed_size(data: Seq<u8>, at: int, value: [u8; N]) {
        assert(Self::size() == N as nat);
        lemma_repeated_size::<u8>(data, at, value@);
    }
}

/// `N` unsigned 32-bit integers, one behind the other.
impl<const N: usize> ByteConvertable for [u32; N] {
    type Model = [u32; N];

    open spec fn model(&self) -> [u32; N] {
        *self
    }

    open spec fn accepts(length_hint: Option<usize>) -> bool {
        length_hint is None
    }

    open spec fn decoding(data: Seq<u8>, at: int, length_hint: Option<usize>) -> Result<
        ([u32; N], nat),
        ConversionError,
    > {
        match repeated_decoding::<u32>(data, at, N as nat) {
            Ok((items, length)) => Ok((array_of::<u32, N>(items), length)),
            Err(error) => Err(error),
        }
    }

    open spec fn encodable(value: [u32; N], length_hint: Option<usize>) -> bool {
        true
    }

    open spec fn encoding(value: [u32; N], length_hint: Option<usize>) -> Seq<u8> {
        repeated_encoding::<u32>(value@)
    }

    fn from_bytes(byte_stream: &mut ByteStream, length_hint: Option<usize>) -> (result: Result<
        Self,
        ConversionError,
    >) {
        decode_array::<u32, N>(byte_stream, 0)
    }

    fn to_bytes(&self, length_hint: Option<usize>) -> (bytes: Vec<u8>) {
        encode_array::<u32, N>(self)
    }

    proof fn lemma_round_trip(value: [u32; N], length_hint: Option<usize>, data: Seq<u8>, at: int) {
        lemma_repeated_round_trip::<u32>(value@, data, at);
        lemma_array_of::<u32, N>(value);
    }
}

} // verus!
