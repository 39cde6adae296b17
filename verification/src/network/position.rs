//! Positions on a map and their packed wire forms.

use cgmath::Vector2;
use vstd::prelude::*;

use crate::loaders::convertable::{ByteConvertable, FixedByteSize};
use crate::loaders::stream::{ByteStream, ConversionError};
use crate::loaders::wire::{holds_at, lemma_holds_at_split};

verus! {

/// The two-dimensional vector of cgmath: two public fields, `x` and `y`.
#[verifier::external_type_specification]
pub struct ExVector2<S>(Vector2<S>);

/// The copy that cgmath derives for its vector. Nothing is claimed of it.
pub assume_specification<S: Clone>[ <Vector2<S> as Clone>::clone ](vector: &Vector2<S>) -> (copy:
    Vector2<S>)
;

/// A position on a map. On the wire it takes three bytes: ten bits for `x`, ten
/// bits for `y`, and four bits of a direction that is not decoded.
#[derive(Clone, Copy, Debug)]
pub struct WorldPosition {
    pub x: usize,
    pub y: usize,
}

impl WorldPosition {
    pub fn new(x: usize, y: usize) -> (position: Self)
        ensures
            position == (WorldPosition { x, y }),
    {
        WorldPosition { x, y }
    }

    pub fn to_vector(&self) -> (vector: Vector2<usize>)
        ensures
            vector.x == self.x,
            vector.y == self.y,
    {
        Vector2 { x: self.x, y: self.y }
    }

    /// The position that three bytes hold.
    pub open spec fn unpack(first: u8, second: u8, third: u8) -> WorldPosition {
        WorldPosition {
            x: (first * 4 + second / 64) as usize,
            y: ((second % 64) * 16 + third / 16) as usize,
        }
    }

    /// The three bytes that hold a position, with a direction of zero.
    pub open spec fn pack(self) -> Seq<u8> {
        seq![
            (self.x / 4) as u8,
            ((self.x % 4) * 64 + self.y / 16) as u8,
            ((self.y % 16) * 16) as u8,
        ]
    }
}

impl ByteConvertable for WorldPosition {
    type Model = WorldPosition;

    open spec fn model(&self) -> WorldPosition {
        *self
    }

    open spec fn accepts(length_hint: Option<usize>) -> bool {
        length_hint is None
    }

    open spec fn decoding(data: Seq<u8>, at: int, length_hint: Option<usize>) -> Result<
        (WorldPosition, nat),
        ConversionError,
    > {
        if at + 3 > data.len() {
            Err(ConversionError::Incomplete)
        } else {
            Ok((WorldPosition::unpack(data[at], data[at + 1], data[at + 2]), 3))
        }
    }

    open spec fn encodable(value: WorldPosition, length_hint: Option<usize>) -> bool {
        value.x < 1024 && value.y < 1024
    }

    open spec fn encoding(value: WorldPosition, length_hint: Option<usize>) -> Seq<u8> {
        value.pack()
    }

    fn from_bytes(byte_stream: &mut ByteStream, length_hint: Option<usize>) -> (result: Result<
        Self,
        ConversionError,
    >) {
        let coordinates = byte_stream.slice(3)?;
        let first = coordinates[0] as usize;
        let second = coordinates[1] as usize;
        let third = coordinates[2] as usize;
        Ok(WorldPosition { x: first * 4 + second / 64, y: (second % 64) * 16 + third / 16 })
    }

    fn to_bytes(&self, length_hint: Option<usize>) -> (bytes: Vec<u8>) {
        let mut coordinates = Vec::new();
        coordinates.push((self.x / 4) as u8);
        coordinates.push(((self.x % 4) * 64 + self.y / 16) as u8);
        coordinates.push(((self.y % 16) * 16) as u8);
        assert(coordinates@ =~= self.pack());
        coordinates
    }

    proof fn lemma_round_trip(
        value: WorldPosition,
        length_hint: Option<usize>,
        data: Seq<u8>,
        at: int,
    ) {
        reveal(holds_at);
        let bytes = value.pack();
        assert(data[at + 0] == bytes[0]);
        assert(data[at + 1] == bytes[1]);
        assert(data[at + 2] == bytes[2]);
    }
}

/// Every position of coordinates below 1024 decodes from its three bytes, and
/// from them alone, as it was encoded.
pub proof fn lemma_world_position_round_trip(x: usize, y: usize, rest: Seq<u8>)
    requires
        x <= 1023,
        y <= 1023,
    ensures
        WorldPosition::encoding(WorldPosition { x, y }, None).len() == 3,
        WorldPosition::decoding(
            WorldPosition::encoding(WorldPosition { x, y }, None) + rest,
            0,
            None,
        ) == Ok::<(WorldPosition, nat), ConversionError>((WorldPosition { x, y }, 3)),
{
    let position = WorldPosition { x, y };
    let bytes = WorldPosition::encoding(position, None);
    crate::loaders::wire::lemma_holds_at_front(bytes, rest);
    WorldPosition::lemma_round_trip(position, None, bytes + rest, 0);
}

impl FixedByteSize for WorldPosition {
    open spec fn size() -> nat {
        3
    }

    fn size_in_bytes() -> (size: usize) {
        3
    }

    proof fn lemma_fixed_size(data: Seq<u8>, at: int, value: WorldPosition) {
        assert(Self::size() == 3);
    }
}

/// Where a movement begins and where it ends. On the wire it takes six bytes:
/// ten bits for each of the four coordinates, and eight bits of direction hints
/// that are not decoded.
#[derive(Clone, Copy, Debug)]
pub struct WorldPosition2 {
    pub x1: usize,
    pub y1: usize,
    pub x2: usize,
    pub y2: usize,
}

impl WorldPosition2 {
    pub fn new(x1: usize, y1: usize, x2: usize, y2: usize) -> (position: Self)
        ensures
            position == (WorldPosition2 { x1, y1, x2, y2 }),
    {
        WorldPosition2 { x1, y1, x2, y2 }
    }

    pub fn to_vectors(&self) -> (vectors: (Vector2<usize>, Vector2<usize>))
        ensures
            vectors.0.x == self.x1,
            vectors.0.y == self.y1,
            vectors.1.x == self.x2,
            vectors.1.y == self.y2,
    {
        (Vector2 { x: self.x1, y: self.y1 }, Vector2 { x: self.x2, y: self.y2 })
    }

    /// The two positions that the first five of six bytes hold.
    pub open spec fn unpack(first: u8, second: u8, third: u8, fourth: u8, fifth: u8)
        -> WorldPosition2 {
        WorldPosition2 {
            x1: (first * 4 + second / 64) as usize,
            y1: ((second % 64) * 16 + third / 16) as usize,
            x2: ((third % 16) * 64 + fourth / 4) as usize,
            y2: ((fourth % 4) * 256 + fifth) as usize,
        }
    }

    /// The six bytes that hold two positions, with direction hints of zero.
    pub open spec fn pack(self) -> Seq<u8> {
        seq![
            (self.x1 / 4) as u8,
            ((self.x1 % 4) * 64 + self.y1 / 16) as u8,
            ((self.y1 % 16) * 16 + self.x2 / 64) as u8,
            ((self.x2 % 64) * 4 + self.y2 / 256) as u8,
            (self.y2 % 256) as u8,
            0u8,
        ]
    }
}

impl ByteConvertable for WorldPosition2 {
    type Model = WorldPosition2;

    open spec fn model(&self) -> WorldPosition2 {
        *self
    }

    open spec fn accepts(length_hint: Option<usize>) -> bool {
        length_hint is None
    }

    open spec fn decoding(data: Seq<u8>, at: int, length_hint: Option<usize>) -> Result<
        (WorldPosition2, nat),
        ConversionError,
    > {
        if at + 6 > data.len() {
            Err(ConversionError::Incomplete)
        } else {
            Ok(
                (
                    WorldPosition2::unpack(
                        data[at],
                        data[at + 1],
                        data[at + 2],
                        data[at + 3],
                        data[at + 4],
                    ),
                    6,
                ),
            )
        }
    }

    open spec fn encodable(value: WorldPosition2, length_hint: Option<usize>) -> bool {
        value.x1 < 1024 && value.y1 < 1024 && value.x2 < 1024 && value.y2 < 1024
    }

    open spec fn encoding(value: WorldPosition2, length_hint: Option<usize>) -> Seq<u8> {
        value.pack()
    }

    fn from_bytes(byte_stream: &mut ByteStream, length_hint: Option<usize>) -> (result: Result<
        Self,
        ConversionError,
    >) {
        let coordinates = byte_stream.slice(6)?;
        let first = coordinates[0] as usize;
        let second = coordinates[1] as usize;
        let third = coordinates[2] as usize;
        let fourth = coordinates[3] as usize;
        let fifth = coordinates[4] as usize;
        Ok(
            WorldPosition2 {
                x1: first * 4 + second / 64,
                y1: (second % 64) * 16 + third / 16,
                x2: (third % 16) * 64 + fourth / 4,
                y2: (fourth % 4) * 256 + fifth,
            },
        )
    }

    fn to_bytes(&self, length_hint: Option<usize>) -> (bytes: Vec<u8>) {
        let mut coordinates = Vec::new();
        coordinates.push((self.x1 / 4) as u8);
        coordinates.push(((self.x1 % 4) * 64 + self.y1 / 16) as u8);
        coordinates.push(((self.y1 % 16) * 16 + self.x2 / 64) as u8);
        coordinates.push(((self.x2 % 64) * 4 + self.y2 / 256) as u8);
        coordinates.push((self.y2 % 256) as u8);
        coordinates.push(0);
        assert(coordinates@ =~= self.pack());
        coordinates
    }

    proof fn lemma_round_trip(
        value: WorldPosition2,
        length_hint: Option<usize>,
        data: Seq<u8>,
        at: int,
    ) {
        reveal(holds_at);
        let bytes = value.pack();
        assert(data[at + 0] == bytes[0]);
        assert(data[at + 1] == bytes[1]);
        assert(data[at + 2] == bytes[2]);
        assert(data[at + 3] == bytes[3]);
        assert(data[at + 4] == bytes[4]);
    }
}

impl FixedByteSize for WorldPosition2 {
    open spec fn size() -> nat {
        6
    }

    fn size_in_bytes() -> (size: usize) {
        6
    }

    proof fn lemma_fixed_size(data: Seq<u8>, at: int, value: WorldPosition2) {
        assert(Self::size() == 6);
    }
}

/// A pair of unsigned 16-bit integers, `x` before `y`.
impl ByteConvertable for Vector2<u16> {
    type Model = Vector2<u16>;

    open spec fn model(&self) -> Vector2<u16> {
        *self
    }

    open spec fn accepts(length_hint: Option<usize>) -> bool {
        length_hint is None
    }

    open spec fn decoding(data: Seq<u8>, at: int, length_hint: Option<usize>) -> Result<
        (Vector2<u16>, nat),
        ConversionError,
    > {
        match (u16::decoding(data, at, None), u16::decoding(data, at + 2, None)) {
            (Ok((x, _)), Ok((y, _))) => Ok((Vector2 { x, y }, 4)),
            _ => Err(ConversionError::Incomplete),
        }
    }

    open spec fn encodable(value: Vector2<u16>, length_hint: Option<usize>) -> bool {
        true
    }

    open spec fn encoding(value: Vector2<u16>, length_hint: Option<usize>) -> Seq<u8> {
        u16::encoding(value.x, None) + u16::encoding(value.y, None)
    }

    fn from_bytes(byte_stream: &mut ByteStream, length_hint: Option<usize>) -> (result: Result<
        Self,
        ConversionError,
    >) {
        let mut cursor = byte_stream.fork();
        let x = u16::from_bytes(&mut cursor, None)?;
        let y = u16::from_bytes(&mut cursor, None)?;
        byte_stream.follow(&cursor);
        Ok(Vector2 { x, y })
    }

    fn to_bytes(&self, length_hint: Option<usize>) -> (bytes: Vec<u8>) {
        let mut bytes = self.x.to_bytes(None);
        let mut piece = self.y.to_bytes(None);
        bytes.append(&mut piece);
        bytes
    }

    proof fn lemma_round_trip(
        value: Vector2<u16>,
        length_hint: Option<usize>,
        data: Seq<u8>,
        at: int,
    ) {
        lemma_holds_at_split(data, at, u16::encoding(value.x, None), u16::encoding(value.y, None));
        u16::lemma_round_trip(value.x, None, data, at);
        u16::lemma_round_trip(value.y, None, data, at + 2);
    }
}

impl FixedByteSize for Vector2<u16> {
    open spec fn size() -> nat {
        4
    }

    fn size_in_bytes() -> (size: usize) {
        4
    }

    proof fn lemma_fixed_size(data: Seq<u8>, at: int, value: Vector2<u16>) {
        assert(Self::size() == 4);
    }
}

/// A pair of unsigned 32-bit integers, `x` before `y`.
impl ByteConvertable for Vector2<u32> {
    type Model = Vector2<u32>;

    open spec fn model(&self) -> Vector2<u32> {
        *self
    }

    open spec fn accepts(length_hint: Option<usize>) -> bool {
        length_hint is None
    }

    open spec fn decoding(data: Seq<u8>, at: int, length_hint: Option<usize>) -> Result<
        (Vector2<u32>, nat),
        ConversionError,
    > {
        match (u32::decoding(data, at, None), u32::decoding(data, at + 4, None)) {
            (Ok((x, _)), Ok((y, _))) => Ok((Vector2 { x, y }, 8)),
            _ => Err(ConversionError::Incomplete),
        }
    }

    open spec fn encodable(value: Vector2<u32>, length_hint: Option<usize>) -> bool {
        true
    }

    open spec fn encoding(value: Vector2<u32>, length_hint: Option<usize>) -> Seq<u8> {
        u32::encoding(value.x, None) + u32::encoding(value.y, None)
    }

    fn from_bytes(byte_stream: &mut ByteStream, length_hint: Option<usize>) -> (result: Result<
        Self,
        ConversionError,
    >) {
        let mut cursor = byte_stream.fork();
        let x = u32::from_bytes(&mut cursor, None)?;
        let y = u32::from_bytes(&mut cursor, None)?;
        byte_stream.follow(&cursor);
        Ok(Vector2 { x, y })
    }

    fn to_bytes(&self, length_hint: Option<usize>) -> (bytes: Vec<u8>) {
        let mut bytes = self.x.to_bytes(None);
        let mut piece = self.y.to_bytes(None);
        bytes.append(&mut piece);
        bytes
    }

    proof fn lemma_round_trip(
        value: Vector2<u32>,
        length_hint: Option<usize>,
        data: Seq<u8>,
        at: int,
    ) {
        lemma_holds_at_split(data, at, u32::encoding(value.x, None), u32::encoding(value.y, None));
        u32::lemma_round_trip(value.x, None, data, at);
        u32::lemma_round_trip(value.y, None, data, at + 4);
    }
}

impl FixedByteSize for Vector2<u32> {
    open spec fn size() -> nat {
        8
    }

    fn size_in_bytes() -> (size: usize) {
        8
    }

    proof fn lemma_fixed_size(data: Seq<u8>, at: int, value: Vector2<u32>) {
        assert(Self::size() == 8);
    }
}

} // verus!
