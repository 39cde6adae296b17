//! Identifiers and other small values that many packets share.

use vstd::prelude::*;

use crate::loaders::convertable::{behind, ByteConvertable, FixedByteSize};
use crate::loaders::stream::{ByteStream, ConversionError};
use crate::loaders::wire::{holds_at, lemma_holds_at_split};

verus! {

/// A point in the time of the server, in milliseconds.
#[derive(Clone, Copy, Debug, PartialEq, Eq, Hash, Structural)]
pub struct ClientTick(pub u32);

impl ByteConvertable for ClientTick {
    type Model = ClientTick;

    open spec fn model(&self) -> ClientTick {
        *self
    }

    open spec fn accepts(length_hint: Option<usize>) -> bool {
        length_hint is None
    }

    open spec fn decoding(data: Seq<u8>, at: int, length_hint: Option<usize>) -> Result<
        (ClientTick, nat),
        ConversionError,
    > {
        let value = u32::decoding(data, at, None);
        let behind_all = behind(at, value);
        if value is Err {
            Err(value->Err_0)
        } else {
            Ok((ClientTick(value->Ok_0.0), (behind_all - at) as nat))
        }
    }

    open spec fn encodable(value: ClientTick, length_hint: Option<usize>) -> bool {
        true
    }

    open spec fn encoding(value: ClientTick, length_hint: Option<usize>) -> Seq<u8> {
        u32::encoding(value.0, None)
    }

    fn from_bytes(byte_stream: &mut ByteStream, length_hint: Option<usize>) -> (result: Result<
        Self,
        ConversionError,
    >) {
        let mut cursor = byte_stream.fork();
        let value = u32::from_bytes(&mut cursor, None)?;
        byte_stream.follow(&cursor);
        Ok(ClientTick(value))
    }

    fn to_bytes(&self, length_hint: Option<usize>) -> (bytes: Vec<u8>) {
        let bytes = self.0.to_bytes(None);
        bytes
    }

    proof fn lemma_round_trip(
        value: ClientTick,
        length_hint: Option<usize>,
        data: Seq<u8>,
        at: int,
    ) {
        let piece_0 = u32::encoding(value.0, None);
        u32::lemma_round_trip(value.0, None, data, at);
    }
}

impl FixedByteSize for ClientTick {
    open spec fn size() -> nat {
        4
    }

    fn size_in_bytes() -> (size: usize) {
        4
    }

    proof fn lemma_fixed_size(data: Seq<u8>, at: int, value: ClientTick) {
        assert(Self::size() == 4);
        u32::lemma_fixed_size(data, at, value.0);
    }
}

#[derive(Clone, Copy, Debug, PartialEq, Eq, Hash, Structural)]
pub struct AccountId(pub u32);

impl ByteConvertable for AccountId {
    type Model = AccountId;

    open spec fn model(&self) -> AccountId {
        *self
    }

    open spec fn accepts(length_hint: Option<usize>) -> bool {
        length_hint is None
    }

    open spec fn decoding(data: Seq<u8>, at: int, length_hint: Option<usize>) -> Result<
        (AccountId, nat),
        ConversionError,
    > {
        let value = u32::decoding(data, at, None);
        let behind_all = behind(at, value);
        if value is Err {
            Err(value->Err_0)
        } else {
            Ok((AccountId(value->Ok_0.0), (behind_all - at) as nat))
        }
    }

    open spec fn encodable(value: AccountId, length_hint: Option<usize>) -> bool {
        true
    }

    open spec fn encoding(value: AccountId, length_hint: Option<usize>) -> Seq<u8> {
        u32::encoding(value.0, None)
    }

    fn from_bytes(byte_stream: &mut ByteStream, length_hint: Option<usize>) -> (result: Result<
        Self,
        ConversionError,
    >) {
        let mut cursor = byte_stream.fork();
        let value = u32::from_bytes(&mut cursor, None)?;
        byte_stream.follow(&cursor);
        Ok(AccountId(value))
    }

    fn to_bytes(&self, length_hint: Option<usize>) -> (bytes: Vec<u8>) {
        let bytes = self.0.to_bytes(None);
        bytes
    }

    proof fn lemma_round_trip(
        value: AccountId,
        length_hint: Option<usize>,
        data: Seq<u8>,
        at: int,
    ) {
        let piece_0 = u32::encoding(value.0, None);
        u32::lemma_round_trip(value.0, None, data, at);
    }
}

impl FixedByteSize for AccountId {
    open spec fn size() -> nat {
        4
    }

    fn size_in_bytes() -> (size: usize) {
        4
    }

    proof fn lemma_fixed_size(data: Seq<u8>, at: int, value: AccountId) {
        assert(Self::size() == 4);
        u32::lemma_fixed_size(data, at, value.0);
    }
}

#[derive(Clone, Copy, Debug, PartialEq, Eq, Hash, Structural)]
pub struct CharacterId(pub u32);

impl ByteConvertable for CharacterId {
    type Model = CharacterId;

    open spec fn model(&self) -> CharacterId {
        *self
    }

    open spec fn accepts(length_hint: Option<usize>) -> bool {
        length_hint is None
    }

    open spec fn decoding(data: Seq<u8>, at: int, length_hint: Option<usize>) -> Result<
        (CharacterId, nat),
        ConversionError,
    > {
        let value = u32::decoding(data, at, None);
        let behind_all = behind(at, value);
        if value is Err {
            Err(value->Err_0)
        } else {
            Ok((CharacterId(value->Ok_0.0), (behind_all - at) as nat))
        }
    }

    open spec fn encodable(value: CharacterId, length_hint: Option<usize>) -> bool {
        true
    }

    open spec fn encoding(value: CharacterId, length_hint: Option<usize>) -> Seq<u8> {
        u32::encoding(value.0, None)
    }

    fn from_bytes(byte_stream: &mut ByteStream, length_hint: Option<usize>) -> (result: Result<
        Self,
        ConversionError,
    >) {
        let mut cursor = byte_stream.fork();
        let value = u32::from_bytes(&mut cursor, None)?;
        byte_stream.follow(&cursor);
        Ok(CharacterId(value))
    }

    fn to_bytes(&self, length_hint: Option<usize>) -> (bytes: Vec<u8>) {
        let bytes = self.0.to_bytes(None);
        bytes
    }

    proof fn lemma_round_trip(
        value: CharacterId,
        length_hint: Option<usize>,
        data: Seq<u8>,
        at: int,
    ) {
        let piece_0 = u32::encoding(value.0, None);
        u32::lemma_round_trip(value.0, None, data, at);
    }
}

impl FixedByteSize for CharacterId {
    open spec fn size() -> nat {
        4
    }

    fn size_in_bytes() -> (size: usize) {
        4
    }

    proof fn lemma_fixed_size(data: Seq<u8>, at: int, value: CharacterId) {
        assert(Self::size() == 4);
        u32::lemma_fixed_size(data, at, value.0);
    }
}

#[derive(Clone, Copy, Debug, PartialEq, Eq, Hash, Structural)]
pub struct PartyId(pub u32);

impl ByteConvertable for PartyId {
    type Model = PartyId;

    open spec fn model(&self) -> PartyId {
        *self
    }

    open spec fn accepts(length_hint: Option<usize>) -> bool {
        length_hint is None
    }

    open spec fn decoding(data: Seq<u8>, at: int, length_hint: Option<usize>) -> Result<
        (PartyId, nat),
        ConversionError,
    > {
        let value = u32::decoding(data, at, None);
        let behind_all = behind(at, value);
        if value is Err {
            Err(value->Err_0)
        } else {
            Ok((PartyId(value->Ok_0.0), (behind_all - at) as nat))
        }
    }

    open spec fn encodable(value: PartyId, length_hint: Option<usize>) -> bool {
        true
    }

    open spec fn encoding(value: PartyId, length_hint: Option<usize>) -> Seq<u8> {
        u32::encoding(value.0, None)
    }

    fn from_bytes(byte_stream: &mut ByteStream, length_hint: Option<usize>) -> (result: Result<
        Self,
        ConversionError,
    >) {
        let mut cursor = byte_stream.fork();
        let value = u32::from_bytes(&mut cursor, None)?;
        byte_stream.follow(&cursor);
        Ok(PartyId(value))
    }

    fn to_bytes(&self, length_hint: Option<usize>) -> (bytes: Vec<u8>) {
        let bytes = self.0.to_bytes(None);
        bytes
    }

    proof fn lemma_round_trip(value: PartyId, length_hint: Option<usize>, data: Seq<u8>, at: int) {
        let piece_0 = u32::encoding(value.0, None);
        u32::lemma_round_trip(value.0, None, data, at);
    }
}

impl FixedByteSize for PartyId {
    open spec fn size() -> nat {
        4
    }

    fn size_in_bytes() -> (size: usize) {
        4
    }

    proof fn lemma_fixed_size(data: Seq<u8>, at: int, value: PartyId) {
        assert(Self::size() == 4);
        u32::lemma_fixed_size(data, at, value.0);
    }
}

#[derive(Clone, Copy, Debug, PartialEq, Eq, Hash, Structural)]
pub struct EntityId(pub u32);

impl ByteConvertable for EntityId {
    type Model = EntityId;

    open spec fn model(&self) -> EntityId {
        *self
    }

    open spec fn accepts(length_hint: Option<usize>) -> bool {
        length_hint is None
    }

    open spec fn decoding(data: Seq<u8>, at: int, length_hint: Option<usize>) -> Result<
        (EntityId, nat),
        ConversionError,
    > {
        let value = u32::decoding(data, at, None);
        let behind_all = behind(at, value);
        if value is Err {
            Err(value->Err_0)
        } else {
            Ok((EntityId(value->Ok_0.0), (behind_all - at) as nat))
        }
    }

    open spec fn encodable(value: EntityId, length_hint: Option<usize>) -> bool {
        true
    }

    open spec fn encoding(value: EntityId, length_hint: Option<usize>) -> Seq<u8> {
        u32::encoding(value.0, None)
    }

    fn from_bytes(byte_stream: &mut ByteStream, length_hint: Option<usize>) -> (result: Result<
        Self,
        ConversionError,
    >) {
        let mut cursor = byte_stream.fork();
        let value = u32::from_bytes(&mut cursor, None)?;
        byte_stream.follow(&cursor);
        Ok(EntityId(value))
    }

    fn to_bytes(&self, length_hint: Option<usize>) -> (bytes: Vec<u8>) {
        let bytes = self.0.to_bytes(None);
        bytes
    }

    proof fn lemma_round_trip(value: EntityId, length_hint: Option<usize>, data: Seq<u8>, at: int) {
        let piece_0 = u32::encoding(value.0, None);
        u32::lemma_round_trip(value.0, None, data, at);
    }
}

impl FixedByteSize for EntityId {
    open spec fn size() -> nat {
        4
    }

    fn size_in_bytes() -> (size: usize) {
        4
    }

    proof fn lemma_fixed_size(data: Seq<u8>, at: int, value: EntityId) {
        assert(Self::size() == 4);
        u32::lemma_fixed_size(data, at, value.0);
    }
}

#[derive(Clone, Copy, Debug, PartialEq, Eq, Hash, Structural)]
pub struct SkillId(pub u16);

impl ByteConvertable for SkillId {
    type Model = SkillId;

    open spec fn model(&self) -> SkillId {
        *self
    }

    open spec fn accepts(length_hint: Option<usize>) -> bool {
        length_hint is None
    }

    open spec fn decoding(data: Seq<u8>, at: int, length_hint: Option<usize>) -> Result<
        (SkillId, nat),
        ConversionError,
    > {
        let value = u16::decoding(data, at, None);
        let behind_all = behind(at, value);
        if value is Err {
            Err(value->Err_0)
        } else {
            Ok((SkillId(value->Ok_0.0), (behind_all - at) as nat))
        }
    }

    open spec fn encodable(value: SkillId, length_hint: Option<usize>) -> bool {
        true
    }

    open spec fn encoding(value: SkillId, length_hint: Option<usize>) -> Seq<u8> {
        u16::encoding(value.0, None)
    }

    fn from_bytes(byte_stream: &mut ByteStream, length_hint: Option<usize>) -> (result: Result<
        Self,
        ConversionError,
    >) {
        let mut cursor = byte_stream.fork();
        let value = u16::from_bytes(&mut cursor, None)?;
        byte_stream.follow(&cursor);
        Ok(SkillId(value))
    }

    fn to_bytes(&self, length_hint: Option<usize>) -> (bytes: Vec<u8>) {
        let bytes = self.0.to_bytes(None);
        bytes
    }

    proof fn lemma_round_trip(value: SkillId, length_hint: Option<usize>, data: Seq<u8>, at: int) {
        let piece_0 = u16::encoding(value.0, None);
        u16::lemma_round_trip(value.0, None, data, at);
    }
}

impl FixedByteSize for SkillId {
    open spec fn size() -> nat {
        2
    }

    fn size_in_bytes() -> (size: usize) {
        2
    }

    proof fn lemma_fixed_size(data: Seq<u8>, at: int, value: SkillId) {
        assert(Self::size() == 2);
        u16::lemma_fixed_size(data, at, value.0);
    }
}

#[derive(Clone, Copy, Debug, PartialEq, Eq, Hash, Structural)]
pub struct SkillLevel(pub u16);

impl ByteConvertable for SkillLevel {
    type Model = SkillLevel;

    open spec fn model(&self) -> SkillLevel {
        *self
    }

    open spec fn accepts(length_hint: Option<usize>) -> bool {
        length_hint is None
    }

    open spec fn decoding(data: Seq<u8>, at: int, length_hint: Option<usize>) -> Result<
        (SkillLevel, nat),
        ConversionError,
    > {
        let value = u16::decoding(data, at, None);
        let behind_all = behind(at, value);
        if value is Err {
            Err(value->Err_0)
        } else {
            Ok((SkillLevel(value->Ok_0.0), (behind_all - at) as nat))
        }
    }

    open spec fn encodable(value: SkillLevel, length_hint: Option<usize>) -> bool {
        true
    }

    open spec fn encoding(value: SkillLevel, length_hint: Option<usize>) -> Seq<u8> {
        u16::encoding(value.0, None)
    }

    fn from_bytes(byte_stream: &mut ByteStream, length_hint: Option<usize>) -> (result: Result<
        Self,
        ConversionError,
    >) {
        let mut cursor = byte_stream.fork();
        let value = u16::from_bytes(&mut cursor, None)?;
        byte_stream.follow(&cursor);
        Ok(SkillLevel(value))
    }

    fn to_bytes(&self, length_hint: Option<usize>) -> (bytes: Vec<u8>) {
        let bytes = self.0.to_bytes(None);
        bytes
    }

    proof fn lemma_round_trip(
        value: SkillLevel,
        length_hint: Option<usize>,
        data: Seq<u8>,
        at: int,
    ) {
        let piece_0 = u16::encoding(value.0, None);
        u16::lemma_round_trip(value.0, None, data, at);
    }
}

impl FixedByteSize for SkillLevel {
    open spec fn size() -> nat {
        2
    }

    fn size_in_bytes() -> (size: usize) {
        2
    }

    proof fn lemma_fixed_size(data: Seq<u8>, at: int, value: SkillLevel) {
        assert(Self::size() == 2);
        u16::lemma_fixed_size(data, at, value.0);
    }
}

#[derive(Clone, Copy, Debug, PartialEq, Eq, Hash, Structural)]
pub struct ItemId(pub u32);

impl ByteConvertable for ItemId {
    type Model = ItemId;

    open spec fn model(&self) -> ItemId {
        *self
    }

    open spec fn accepts(length_hint: Option<usize>) -> bool {
        length_hint is None
    }

    open spec fn decoding(data: Seq<u8>, at: int, length_hint: Option<usize>) -> Result<
        (ItemId, nat),
        ConversionError,
    > {
        let value = u32::decoding(data, at, None);
        let behind_all = behind(at, value);
        if value is Err {
            Err(value->Err_0)
        } else {
            Ok((ItemId(value->Ok_0.0), (behind_all - at) as nat))
        }
    }

    open spec fn encodable(value: ItemId, length_hint: Option<usize>) -> bool {
        true
    }

    open spec fn encoding(value: ItemId, length_hint: Option<usize>) -> Seq<u8> {
        u32::encoding(value.0, None)
    }

    fn from_bytes(byte_stream: &mut ByteStream, length_hint: Option<usize>) -> (result: Result<
        Self,
        ConversionError,
    >) {
        let mut cursor = byte_stream.fork();
        let value = u32::from_bytes(&mut cursor, None)?;
        byte_stream.follow(&cursor);
        Ok(ItemId(value))
    }

    fn to_bytes(&self, length_hint: Option<usize>) -> (bytes: Vec<u8>) {
        let bytes = self.0.to_bytes(None);
        bytes
    }

    proof fn lemma_round_trip(value: ItemId, length_hint: Option<usize>, data: Seq<u8>, at: int) {
        let piece_0 = u32::encoding(value.0, None);
        u32::lemma_round_trip(value.0, None, data, at);
    }
}

impl FixedByteSize for ItemId {
    open spec fn size() -> nat {
        4
    }

    fn size_in_bytes() -> (size: usize) {
        4
    }

    proof fn lemma_fixed_size(data: Seq<u8>, at: int, value: ItemId) {
        assert(Self::size() == 4);
        u32::lemma_fixed_size(data, at, value.0);
    }
}

#[derive(Clone, Copy, Debug, PartialEq, Eq, Structural)]
pub enum Sex {
    Female,
    Male,
    Both,
    Server,
}

impl Sex {
    /// The number that stands for a variant on the wire.
    pub open spec fn code(self) -> u8 {
        match self {
            Sex::Female => 0,
            Sex::Male => 1,
            Sex::Both => 2,
            Sex::Server => 3,
        }
    }

    /// The variant that a number stands for.
    pub open spec fn of_code(code: u8) -> Option<Sex> {
        if code == 0 {
            Some(Sex::Female)
        } else if code == 1 {
            Some(Sex::Male)
        } else if code == 2 {
            Some(Sex::Both)
        } else if code == 3 {
            Some(Sex::Server)
        } else {
            None
        }
    }
}

impl ByteConvertable for Sex {
    type Model = Sex;

    open spec fn model(&self) -> Sex {
        *self
    }

    open spec fn accepts(length_hint: Option<usize>) -> bool {
        length_hint is None
    }

    open spec fn decoding(data: Seq<u8>, at: int, length_hint: Option<usize>) -> Result<
        (Sex, nat),
        ConversionError,
    > {
        match u8::decoding(data, at, None) {
            Ok((code, length)) => match Sex::of_code(code) {
                Some(value) => Ok((value, length)),
                None => Err(ConversionError::Invalid),
            },
            Err(error) => Err(error),
        }
    }

    open spec fn encodable(value: Sex, length_hint: Option<usize>) -> bool {
        true
    }

    open spec fn encoding(value: Sex, length_hint: Option<usize>) -> Seq<u8> {
        u8::encoding(value.code(), None)
    }

    fn from_bytes(byte_stream: &mut ByteStream, length_hint: Option<usize>) -> (result: Result<
        Self,
        ConversionError,
    >) {
        let mut cursor = byte_stream.fork();
        let code = u8::from_bytes(&mut cursor, None)?;
        let value = match code {
            0 => Sex::Female,
            1 => Sex::Male,
            2 => Sex::Both,
            3 => Sex::Server,
            _ => return Err(ConversionError::Invalid),
        };
        byte_stream.follow(&cursor);
        Ok(value)
    }

    fn to_bytes(&self, length_hint: Option<usize>) -> (bytes: Vec<u8>) {
        let code: u8 = match self {
            Sex::Female => 0,
            Sex::Male => 1,
            Sex::Both => 2,
            Sex::Server => 3,
        };
        code.to_bytes(None)
    }

    proof fn lemma_round_trip(
        value: Sex,
        length_hint: Option<usize>,
        data: Seq<u8>,
        at: int,
    ) {
        u8::lemma_round_trip(value.code(), None, data, at);
    }
}

impl FixedByteSize for Sex {
    open spec fn size() -> nat {
        1
    }

    fn size_in_bytes() -> (size: usize) {
        1
    }

    proof fn lemma_fixed_size(data: Seq<u8>, at: int, value: Sex) {
        assert(Self::size() == 1);
    }
}

/// A color of four bytes: red, green, blue, alpha.
#[derive(Clone, Copy, Debug)]
pub struct ColorRGBA {
    pub red: u8,
    pub green: u8,
    pub blue: u8,
    pub alpha: u8,
}

impl ByteConvertable for ColorRGBA {
    type Model = ColorRGBA;

    open spec fn model(&self) -> ColorRGBA {
        *self
    }

    open spec fn accepts(length_hint: Option<usize>) -> bool {
        length_hint is None
    }

    #[verifier::opaque]
    open spec fn decoding(data: Seq<u8>, at: int, length_hint: Option<usize>) -> Result<
        (ColorRGBA, nat),
        ConversionError,
    > {
        let red = u8::decoding(data, at, None);
        let at_green = behind(at, red);
        let green = u8::decoding(data, at_green, None);
        let at_blue = behind(at_green, green);
        let blue = u8::decoding(data, at_blue, None);
        let at_alpha = behind(at_blue, blue);
        let alpha = u8::decoding(data, at_alpha, None);
        let behind_all = behind(at_alpha, alpha);
        if red is Err {
            Err(red->Err_0)
        } else if green is Err {
            Err(green->Err_0)
        } else if blue is Err {
            Err(blue->Err_0)
        } else if alpha is Err {
            Err(alpha->Err_0)
        } else {
            Ok(
                (
                    ColorRGBA {
                        red: red->Ok_0.0,
                        green: green->Ok_0.0,
                        blue: blue->Ok_0.0,
                        alpha: alpha->Ok_0.0,
                    },
                    (behind_all - at) as nat,
                ),
            )
        }
    }

    open spec fn encodable(value: ColorRGBA, length_hint: Option<usize>) -> bool {
        true
    }

    #[verifier::opaque]
    open spec fn encoding(value: ColorRGBA, length_hint: Option<usize>) -> Seq<u8> {
        u8::encoding(value.red, None)
            + u8::encoding(value.green, None)
            + u8::encoding(value.blue, None)
            + u8::encoding(value.alpha, None)
    }

    fn from_bytes(byte_stream: &mut ByteStream, length_hint: Option<usize>) -> (result: Result<
        Self,
        ConversionError,
    >) {
        proof {
            reveal(<ColorRGBA as ByteConvertable>::decoding);
        }
        let mut cursor = byte_stream.fork();
        let red = u8::from_bytes(&mut cursor, None)?;
        let green = u8::from_bytes(&mut cursor, None)?;
        let blue = u8::from_bytes(&mut cursor, None)?;
        let alpha = u8::from_bytes(&mut cursor, None)?;
        byte_stream.follow(&cursor);
        Ok(ColorRGBA { red, green, blue, alpha })
    }

    fn to_bytes(&self, length_hint: Option<usize>) -> (bytes: Vec<u8>) {
        proof {
            reveal(<ColorRGBA as ByteConvertable>::encoding);
        }
        let mut bytes = self.red.to_bytes(None);
        let mut piece = self.green.to_bytes(None);
        bytes.append(&mut piece);
        let mut piece = self.blue.to_bytes(None);
        bytes.append(&mut piece);
        let mut piece = self.alpha.to_bytes(None);
        bytes.append(&mut piece);
        bytes
    }

    proof fn lemma_round_trip(
        value: ColorRGBA,
        length_hint: Option<usize>,
        data: Seq<u8>,
        at: int,
    ) {
        reveal(<ColorRGBA as ByteConvertable>::decoding);
        reveal(<ColorRGBA as ByteConvertable>::encoding);
        let piece_0 = u8::encoding(value.red, None);
        let piece_1 = u8::encoding(value.green, None);
        let piece_2 = u8::encoding(value.blue, None);
        let piece_3 = u8::encoding(value.alpha, None);
        let front_1 = piece_0;
        let front_2 = front_1 + piece_1;
        let front_3 = front_2 + piece_2;
        lemma_holds_at_split(data, at, front_3, piece_3);
        lemma_holds_at_split(data, at, front_2, piece_2);
        lemma_holds_at_split(data, at, front_1, piece_1);
        u8::lemma_round_trip(value.red, None, data, at);
        u8::lemma_round_trip(value.green, None, data, at + front_1.len());
        u8::lemma_round_trip(value.blue, None, data, at + front_2.len());
        u8::lemma_round_trip(value.alpha, None, data, at + front_3.len());
    }
}

impl FixedByteSize for ColorRGBA {
    open spec fn size() -> nat {
        4
    }

    fn size_in_bytes() -> (size: usize) {
        4
    }

    proof fn lemma_fixed_size(data: Seq<u8>, at: int, value: ColorRGBA) {
        reveal(<ColorRGBA as ByteConvertable>::decoding);
        reveal(<ColorRGBA as ByteConvertable>::encoding);
        assert(Self::size() == 4);
        u8::lemma_fixed_size(data, at, value.red);
        u8::lemma_fixed_size(data, at + 1, value.green);
        u8::lemma_fixed_size(data, at + 2, value.blue);
        u8::lemma_fixed_size(data, at + 3, value.alpha);
    }
}

/// A color of four bytes: blue, green, red, alpha.
#[derive(Clone, Copy, Debug)]
pub struct ColorBGRA {
    pub blue: u8,
    pub green: u8,
    pub red: u8,
    pub alpha: u8,
}

impl ByteConvertable for ColorBGRA {
    type Model = ColorBGRA;

    open spec fn model(&self) -> ColorBGRA {
        *self
    }

    open spec fn accepts(length_hint: Option<usize>) -> bool {
        length_hint is None
    }

    #[verifier::opaque]
    open spec fn decoding(data: Seq<u8>, at: int, length_hint: Option<usize>) -> Result<
        (ColorBGRA, nat),
        ConversionError,
    > {
        let blue = u8::decoding(data, at, None);
        let at_green = behind(at, blue);
        let green = u8::decoding(data, at_green, None);
        let at_red = behind(at_green, green);
        let red = u8::decoding(data, at_red, None);
        let at_alpha = behind(at_red, red);
        let alpha = u8::decoding(data, at_alpha, None);
        let behind_all = behind(at_alpha, alpha);
        if blue is Err {
            Err(blue->Err_0)
        } else if green is Err {
            Err(green->Err_0)
        } else if red is Err {
            Err(red->Err_0)
        } else if alpha is Err {
            Err(alpha->Err_0)
        } else {
            Ok(
                (
                    ColorBGRA {
                        blue: blue->Ok_0.0,
                        green: green->Ok_0.0,
                        red: red->Ok_0.0,
                        alpha: alpha->Ok_0.0,
                    },
                    (behind_all - at) as nat,
                ),
            )
        }
    }

    open spec fn encodable(value: ColorBGRA, length_hint: Option<usize>) -> bool {
        true
    }

    #[verifier::opaque]
    open spec fn encoding(value: ColorBGRA, length_hint: Option<usize>) -> Seq<u8> {
        u8::encoding(value.blue, None)
            + u8::encoding(value.green, None)
            + u8::encoding(value.red, None)
            + u8::encoding(value.alpha, None)
    }

    fn from_bytes(byte_stream: &mut ByteStream, length_hint: Option<usize>) -> (result: Result<
        Self,
        ConversionError,
    >) {
        proof {
            reveal(<ColorBGRA as ByteConvertable>::decoding);
        }
        let mut cursor = byte_stream.fork();
        let blue = u8::from_bytes(&mut cursor, None)?;
        let green = u8::from_bytes(&mut cursor, None)?;
        let red = u8::from_bytes(&mut cursor, None)?;
        let alpha = u8::from_bytes(&mut cursor, None)?;
        byte_stream.follow(&cursor);
        Ok(ColorBGRA { blue, green, red, alpha })
    }

    fn to_bytes(&self, length_hint: Option<usize>) -> (bytes: Vec<u8>) {
        proof {
            reveal(<ColorBGRA as ByteConvertable>::encoding);
        }
        let mut bytes = self.blue.to_bytes(None);
        let mut piece = self.green.to_bytes(None);
        bytes.append(&mut piece);
        let mut piece = self.red.to_bytes(None);
        bytes.append(&mut piece);
        let mut piece = self.alpha.to_bytes(None);
        bytes.append(&mut piece);
        bytes
    }

    proof fn lemma_round_trip(
        value: ColorBGRA,
        length_hint: Option<usize>,
        data: Seq<u8>,
        at: int,
    ) {
        reveal(<ColorBGRA as ByteConvertable>::decoding);
        reveal(<ColorBGRA as ByteConvertable>::encoding);
        let piece_0 = u8::encoding(value.blue, None);
        let piece_1 = u8::encoding(value.green, None);
        let piece_2 = u8::encoding(value.red, None);
        let piece_3 = u8::encoding(value.alpha, None);
        let front_1 = piece_0;
        let front_2 = front_1 + piece_1;
        let front_3 = front_2 + piece_2;
        lemma_holds_at_split(data, at, front_3, piece_3);
        lemma_holds_at_split(data, at, front_2, piece_2);
        lemma_holds_at_split(data, at, front_1, piece_1);
        u8::lemma_round_trip(value.blue, None, data, at);
        u8::lemma_round_trip(value.green, None, data, at + front_1.len());
        u8::lemma_round_trip(value.red, None, data, at + front_2.len());
        u8::lemma_round_trip(value.alpha, None, data, at + front_3.len());
    }
}

impl FixedByteSize for ColorBGRA {
    open spec fn size() -> nat {
        4
    }

    fn size_in_bytes() -> (size: usize) {
        4
    }

    proof fn lemma_fixed_size(data: Seq<u8>, at: int, value: ColorBGRA) {
        reveal(<ColorBGRA as ByteConvertable>::decoding);
        reveal(<ColorBGRA as ByteConvertable>::encoding);
        assert(Self::size() == 4);
        u8::lemma_fixed_size(data, at, value.blue);
        u8::lemma_fixed_size(data, at + 1, value.green);
        u8::lemma_fixed_size(data, at + 2, value.red);
        u8::lemma_fixed_size(data, at + 3, value.alpha);
    }
}

/// The place of an item in the inventory. On the wire an index is two more than
/// the index itself.
#[derive(Clone, Copy, Debug, PartialEq, Eq, Hash, Structural)]
pub struct ItemIndex(u16);

impl ItemIndex {
    /// The index itself.
    pub closed spec fn index(self) -> u16 {
        self.0
    }

    /// The index of the given value, which is at most 65533.
    pub closed spec fn of(index: u16) -> ItemIndex {
        ItemIndex(index)
    }

    pub fn value(&self) -> (index: u16)
        ensures
            index == self.index(),
    {
        self.0
    }
}

/// On the wire an index is two more than the index itself: a wire value of at
/// least two decodes to the index that is two less, and that index encodes to
/// the wire value again. A wire value below two is no index.
pub proof fn lemma_item_index_wire(wire: u16, data: Seq<u8>, at: int)
    requires
        holds_at(data, at, u16::encoding(wire, None)),
    ensures
        wire >= 2 ==> ItemIndex::decoding(data, at, None) == Ok::<
            (ItemIndex, nat),
            ConversionError,
        >(
            (ItemIndex::of((wire - 2) as u16), 2),
        ),
        wire >= 2 ==> ItemIndex::of((wire - 2) as u16).index() == wire - 2,
        wire >= 2 ==> ItemIndex::encoding(ItemIndex::of((wire - 2) as u16), None) == u16::encoding(
            wire,
            None,
        ),
        wire < 2 ==> ItemIndex::decoding(data, at, None) == Err::<
            (ItemIndex, nat),
            ConversionError,
        >(
            ConversionError::Invalid,
        ),
{
    u16::lemma_round_trip(wire, None, data, at);
}

impl ByteConvertable for ItemIndex {
    type Model = ItemIndex;

    open spec fn model(&self) -> ItemIndex {
        *self
    }

    open spec fn accepts(length_hint: Option<usize>) -> bool {
        length_hint is None
    }

    open spec fn decoding(data: Seq<u8>, at: int, length_hint: Option<usize>) -> Result<
        (ItemIndex, nat),
        ConversionError,
    > {
        match u16::decoding(data, at, None) {
            Ok((wire, length)) => if wire >= 2 {
                Ok((ItemIndex::of((wire - 2) as u16), length))
            } else {
                Err(ConversionError::Invalid)
            },
            Err(error) => Err(error),
        }
    }

    open spec fn encodable(value: ItemIndex, length_hint: Option<usize>) -> bool {
        value.index() <= 65533
    }

    open spec fn encoding(value: ItemIndex, length_hint: Option<usize>) -> Seq<u8> {
        u16::encoding((value.index() + 2) as u16, None)
    }

    fn from_bytes(byte_stream: &mut ByteStream, length_hint: Option<usize>) -> (result: Result<
        Self,
        ConversionError,
    >) {
        let mut cursor = byte_stream.fork();
        let wire = u16::from_bytes(&mut cursor, None)?;
        if wire < 2 {
            return Err(ConversionError::Invalid);
        }
        byte_stream.follow(&cursor);
        Ok(ItemIndex(wire - 2))
    }

    fn to_bytes(&self, length_hint: Option<usize>) -> (bytes: Vec<u8>) {
        (self.0 + 2).to_bytes(None)
    }

    proof fn lemma_round_trip(
        value: ItemIndex,
        length_hint: Option<usize>,
        data: Seq<u8>,
        at: int,
    ) {
        u16::lemma_round_trip((value.index() + 2) as u16, None, data, at);
    }
}

impl FixedByteSize for ItemIndex {
    open spec fn size() -> nat {
        2
    }

    fn size_in_bytes() -> (size: usize) {
        2
    }

    proof fn lemma_fixed_size(data: Seq<u8>, at: int, value: ItemIndex) {
        assert(Self::size() == 2);
    }
}

} // verus!
