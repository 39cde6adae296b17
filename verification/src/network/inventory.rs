//! The packets about items and equipment.

use vstd::prelude::*;

use crate::loaders::convertable::{
    all_encodable, behind, count_whole, decode_fixed, decode_repeated, encode_fixed,
    encode_repeated, lemma_repeated_round_trip, lemma_repeated_size, lemma_whole_count, models,
    repeated_decoding, repeated_encoding, whole_count, ByteConvertable, FixedByteSize,
};
use crate::loaders::stream::{ByteStream, ConversionError};
use crate::loaders::wire::{
    holds_at, lemma_holds_at_bounds, lemma_holds_at_split, lemma_holds_at_take,
};
use crate::network::ids::{ItemId, ItemIndex};
use crate::network::packet::{LengthPrefixed, Packet};

verus! {

#[derive(Clone, Copy, Debug, PartialEq, Eq, Structural)]
pub enum EquipPosition {
    NoPosition,
    HeadLower,
    HeadMiddle,
    HeadTop,
    RightHand,
    LeftHand,
    Armor,
    Shoes,
    Garment,
    LeftAccessory,
    RigthAccessory,
    CostumeHeadTop,
    CostumeHeadMiddle,
    CostumeHeadLower,
    CostumeGarment,
    Ammo,
    ShadowArmor,
    ShadowWeapon,
    ShadowShield,
    ShadowShoes,
    ShadowRightAccessory,
    ShadowLeftAccessory,
    LeftRightAccessory,
    LeftRightHand,
    ShadowLeftRightAccessory,
}

impl EquipPosition {
    /// The number that stands for a variant on the wire.
    pub open spec fn code(self) -> u32 {
        match self {
            EquipPosition::NoPosition => 0,
            EquipPosition::HeadLower => 1,
            EquipPosition::HeadMiddle => 512,
            EquipPosition::HeadTop => 256,
            EquipPosition::RightHand => 2,
            EquipPosition::LeftHand => 32,
            EquipPosition::Armor => 16,
            EquipPosition::Shoes => 64,
            EquipPosition::Garment => 4,
            EquipPosition::LeftAccessory => 8,
            EquipPosition::RigthAccessory => 128,
            EquipPosition::CostumeHeadTop => 1024,
            EquipPosition::CostumeHeadMiddle => 2048,
            EquipPosition::CostumeHeadLower => 4196,
            EquipPosition::CostumeGarment => 8192,
            EquipPosition::Ammo => 32768,
            EquipPosition::ShadowArmor => 65536,
            EquipPosition::ShadowWeapon => 131072,
            EquipPosition::ShadowShield => 262144,
            EquipPosition::ShadowShoes => 524288,
            EquipPosition::ShadowRightAccessory => 1048576,
            EquipPosition::ShadowLeftAccessory => 2097152,
            EquipPosition::LeftRightAccessory => 136,
            EquipPosition::LeftRightHand => 34,
            EquipPosition::ShadowLeftRightAccessory => 3145728,
        }
    }

    /// The variant that a number stands for.
    pub open spec fn of_code(code: u32) -> Option<EquipPosition> {
        if code == 0 {
            Some(EquipPosition::NoPosition)
        } else if code == 1 {
            Some(EquipPosition::HeadLower)
        } else if code == 512 {
            Some(EquipPosition::HeadMiddle)
        } else if code == 256 {
            Some(EquipPosition::HeadTop)
        } else if code == 2 {
            Some(EquipPosition::RightHand)
        } else if code == 32 {
            Some(EquipPosition::LeftHand)
        } else if code == 16 {
            Some(EquipPosition::Armor)
        } else if code == 64 {
            Some(EquipPosition::Shoes)
        } else if code == 4 {
            Some(EquipPosition::Garment)
        } else if code == 8 {
            Some(EquipPosition::LeftAccessory)
        } else if code == 128 {
            Some(EquipPosition::RigthAccessory)
        } else if code == 1024 {
            Some(EquipPosition::CostumeHeadTop)
        } else if code == 2048 {
            Some(EquipPosition::CostumeHeadMiddle)
        } else if code == 4196 {
            Some(EquipPosition::CostumeHeadLower)
        } else if code == 8192 {
            Some(EquipPosition::CostumeGarment)
        } else if code == 32768 {
            Some(EquipPosition::Ammo)
        } else if code == 65536 {
            Some(EquipPosition::ShadowArmor)
        } else if code == 131072 {
            Some(EquipPosition::ShadowWeapon)
        } else if code == 262144 {
            Some(EquipPosition::ShadowShield)
        } else if code == 524288 {
            Some(EquipPosition::ShadowShoes)
        } else if code == 1048576 {
            Some(EquipPosition::ShadowRightAccessory)
        } else if code == 2097152 {
            Some(EquipPosition::ShadowLeftAccessory)
        } else if code == 136 {
            Some(EquipPosition::LeftRightAccessory)
        } else if code == 34 {
            Some(EquipPosition::LeftRightHand)
        } else if code == 3145728 {
            Some(EquipPosition::ShadowLeftRightAccessory)
        } else {
            None
        }
    }
}

impl ByteConvertable for EquipPosition {
    type Model = EquipPosition;

    open spec fn model(&self) -> EquipPosition {
        *self
    }

    open spec fn accepts(length_hint: Option<usize>) -> bool {
        length_hint is None
    }

    open spec fn decoding(data: Seq<u8>, at: int, length_hint: Option<usize>) -> Result<
        (EquipPosition, nat),
        ConversionError,
    > {
        match u32::decoding(data, at, None) {
            Ok((code, length)) => match EquipPosition::of_code(code) {
                Some(value) => Ok((value, length)),
                None => Err(ConversionError::Invalid),
            },
            Err(error) => Err(error),
        }
    }

    open spec fn encodable(value: EquipPosition, length_hint: Option<usize>) -> bool {
        true
    }

    open spec fn encoding(value: EquipPosition, length_hint: Option<usize>) -> Seq<u8> {
        u32::encoding(value.code(), None)
    }

    fn from_bytes(byte_stream: &mut ByteStream, length_hint: Option<usize>) -> (result: Result<
        Self,
        ConversionError,
    >) {
        let mut cursor = byte_stream.fork();
        let code = u32::from_bytes(&mut cursor, None)?;
        let value = match code {
            0 => EquipPosition::NoPosition,
            1 => EquipPosition::HeadLower,
            512 => EquipPosition::HeadMiddle,
            256 => EquipPosition::HeadTop,
            2 => EquipPosition::RightHand,
            32 => EquipPosition::LeftHand,
            16 => EquipPosition::Armor,
            64 => EquipPosition::Shoes,
            4 => EquipPosition::Garment,
            8 => EquipPosition::LeftAccessory,
            128 => EquipPosition::RigthAccessory,
            1024 => EquipPosition::CostumeHeadTop,
            2048 => EquipPosition::CostumeHeadMiddle,
            4196 => EquipPosition::CostumeHeadLower,
            8192 => EquipPosition::CostumeGarment,
            32768 => EquipPosition::Ammo,
            65536 => EquipPosition::ShadowArmor,
            131072 => EquipPosition::ShadowWeapon,
            262144 => EquipPosition::ShadowShield,
            524288 => EquipPosition::ShadowShoes,
            1048576 => EquipPosition::ShadowRightAccessory,
            2097152 => EquipPosition::ShadowLeftAccessory,
            136 => EquipPosition::LeftRightAccessory,
            34 => EquipPosition::LeftRightHand,
            3145728 => EquipPosition::ShadowLeftRightAccessory,
            _ => return Err(ConversionError::Invalid),
        };
        byte_stream.follow(&cursor);
        Ok(value)
    }

    fn to_bytes(&self, length_hint: Option<usize>) -> (bytes: Vec<u8>) {
        let code: u32 = match self {
            EquipPosition::NoPosition => 0,
            EquipPosition::HeadLower => 1,
            EquipPosition::HeadMiddle => 512,
            EquipPosition::HeadTop => 256,
            EquipPosition::RightHand => 2,
            EquipPosition::LeftHand => 32,
            EquipPosition::Armor => 16,
            EquipPosition::Shoes => 64,
            EquipPosition::Garment => 4,
            EquipPosition::LeftAccessory => 8,
            EquipPosition::RigthAccessory => 128,
            EquipPosition::CostumeHeadTop => 1024,
            EquipPosition::CostumeHeadMiddle => 2048,
            EquipPosition::CostumeHeadLower => 4196,
            EquipPosition::CostumeGarment => 8192,
            EquipPosition::Ammo => 32768,
            EquipPosition::ShadowArmor => 65536,
            EquipPosition::ShadowWeapon => 131072,
            EquipPosition::ShadowShield => 262144,
            EquipPosition::ShadowShoes => 524288,
            EquipPosition::ShadowRightAccessory => 1048576,
            EquipPosition::ShadowLeftAccessory => 2097152,
            EquipPosition::LeftRightAccessory => 136,
            EquipPosition::LeftRightHand => 34,
            EquipPosition::ShadowLeftRightAccessory => 3145728,
        };
        code.to_bytes(None)
    }

    proof fn lemma_round_trip(
        value: EquipPosition,
        length_hint: Option<usize>,
        data: Seq<u8>,
        at: int,
    ) {
        u32::lemma_round_trip(value.code(), None, data, at);
    }
}

impl FixedByteSize for EquipPosition {
    open spec fn size() -> nat {
        4
    }

    fn size_in_bytes() -> (size: usize) {
        4
    }

    proof fn lemma_fixed_size(data: Seq<u8>, at: int, value: EquipPosition) {
        assert(Self::size() == 4);
    }
}

#[derive(Clone, Debug)]
pub struct InventoyStartPacket {
    pub packet_length: u16,
    pub inventory_type: u8,
    pub inventory_name: String,
}

/// What a [`InventoyStartPacket`] stands for.
pub struct InventoyStartPacketModel {
    pub packet_length: u16,
    pub inventory_type: u8,
    pub inventory_name: Seq<char>,
}

impl Packet for InventoyStartPacket {
    type Model = InventoyStartPacketModel;

    const PACKET_NAME: &'static str = "InventoyStartPacket";

    const IS_PING: bool = false;

    open spec fn model(&self) -> InventoyStartPacketModel {
        InventoyStartPacketModel {
            packet_length: self.packet_length.model(),
            inventory_type: self.inventory_type.model(),
            inventory_name: self.inventory_name.model(),
        }
    }

    open spec fn packet_header() -> u16 {
        0x0b08
    }

    #[verifier::opaque]
    open spec fn payload_decoding(data: Seq<u8>, at: int) -> Result<
        (InventoyStartPacketModel, nat),
        ConversionError,
    > {
        let packet_length = u16::decoding(data, at, None);
        let end = at - 2 + packet_length->Ok_0.0;
        let frame = data.take(end);
        let at_inventory_type = behind(at, packet_length);
        let inventory_type = u8::decoding(frame, at_inventory_type, None);
        let at_inventory_name = behind(at_inventory_type, inventory_type);
        let inventory_name = String::decoding(
            frame,
            at_inventory_name,
            Some((packet_length->Ok_0.0 - 5) as usize),
        );
        let behind_all = behind(at_inventory_name, inventory_name);
        if packet_length is Err {
            Err(packet_length->Err_0)
        } else if packet_length->Ok_0.0 < 5 {
            Err(ConversionError::Invalid)
        } else if end > data.len() {
            Err(ConversionError::Incomplete)
        } else if inventory_type is Err || inventory_name is Err || behind_all != end {
            Err(ConversionError::Invalid)
        } else {
            Ok(
                (
                    InventoyStartPacketModel {
                        packet_length: packet_length->Ok_0.0,
                        inventory_type: inventory_type->Ok_0.0,
                        inventory_name: inventory_name->Ok_0.0,
                    },
                    (behind_all - at) as nat,
                ),
            )
        }
    }

    open spec fn encodable(value: InventoyStartPacketModel) -> bool {
        &&& value.packet_length >= 5
        &&& String::encodable(value.inventory_name, Some((value.packet_length - 5) as usize))
        &&& value.packet_length == 2 + Self::payload_encoding(value).len()
    }

    open spec fn faithful(value: InventoyStartPacketModel) -> bool {
        String::faithful(value.inventory_name, Some((value.packet_length - 5) as usize))
    }

    #[verifier::opaque]
    open spec fn payload_encoding(value: InventoyStartPacketModel) -> Seq<u8> {
        u16::encoding(value.packet_length, None)
            + u8::encoding(value.inventory_type, None)
            + String::encoding(value.inventory_name, Some((value.packet_length - 5) as usize))
    }

    fn header() -> (header: u16) {
        0x0b08
    }

    fn payload_from_bytes(byte_stream: &mut ByteStream) -> (result: Result<
        Self,
        ConversionError,
    >) {
        proof {
            reveal(<InventoyStartPacket as Packet>::payload_decoding);
        }
        let mut cursor = byte_stream.fork();
        let packet_length = u16::from_bytes(&mut cursor, None)?;
        if packet_length < 5 {
            return Err(ConversionError::Invalid);
        }
        if cursor.remaining_length() < (packet_length - 4) as usize {
            return Err(ConversionError::Incomplete);
        }
        let end = cursor.get_offset() + (packet_length - 4) as usize;
        let mut frame = cursor.frame(end);
        let inventory_type = match u8::from_bytes(&mut frame, None) {
            Ok(value) => value,
            Err(_) => return Err(ConversionError::Invalid),
        };
        let inventory_name = match String::from_bytes(
            &mut frame,
            Some((packet_length - 5) as usize),
        ) {
            Ok(value) => value,
            Err(_) => return Err(ConversionError::Invalid),
        };
        if !frame.is_empty() {
            return Err(ConversionError::Invalid);
        }
        byte_stream.follow(&frame);
        Ok(InventoyStartPacket { packet_length, inventory_type, inventory_name })
    }

    fn payload_to_bytes(&self) -> (bytes: Vec<u8>) {
        proof {
            reveal(<InventoyStartPacket as Packet>::payload_encoding);
        }
        let mut bytes = self.packet_length.to_bytes(None);
        let mut piece = self.inventory_type.to_bytes(None);
        bytes.append(&mut piece);
        let mut piece = self.inventory_name.to_bytes(Some((self.packet_length - 5) as usize));
        bytes.append(&mut piece);
        bytes
    }

    proof fn lemma_payload_round_trip(value: InventoyStartPacketModel, data: Seq<u8>, at: int) {
        reveal(<InventoyStartPacket as Packet>::payload_decoding);
        reveal(<InventoyStartPacket as Packet>::payload_encoding);
        let piece_0 = u16::encoding(value.packet_length, None);
        let piece_1 = u8::encoding(value.inventory_type, None);
        let piece_2 = String::encoding(
            value.inventory_name,
            Some((value.packet_length - 5) as usize),
        );
        let front_1 = piece_0;
        let front_2 = front_1 + piece_1;
        lemma_holds_at_split(data, at, front_2, piece_2);
        lemma_holds_at_split(data, at, front_1, piece_1);
        lemma_holds_at_bounds(data, at, Self::payload_encoding(value));
        let end = at - 2 + value.packet_length;
        let frame = data.take(end);
        u16::lemma_round_trip(value.packet_length, None, data, at);
        lemma_holds_at_take(data, end, at + front_1.len(), piece_1);
        u8::lemma_round_trip(value.inventory_type, None, frame, at + front_1.len());
        lemma_holds_at_take(data, end, at + front_2.len(), piece_2);
        String::lemma_round_trip(
            value.inventory_name,
            Some((value.packet_length - 5) as usize),
            frame,
            at + front_2.len(),
        );
    }
}

impl LengthPrefixed for InventoyStartPacket {
    open spec fn announced_length(value: InventoyStartPacketModel) -> u16 {
        value.packet_length
    }

    proof fn lemma_exact_length(data: Seq<u8>, at: int) {
        reveal(<InventoyStartPacket as Packet>::payload_decoding);
    }
}

#[derive(Clone, Copy, Debug)]
pub struct InventoyEndPacket {
    pub inventory_type: u8,
    pub flag: u8,
}

impl Packet for InventoyEndPacket {
    type Model = InventoyEndPacket;

    const PACKET_NAME: &'static str = "InventoyEndPacket";

    const IS_PING: bool = false;

    open spec fn model(&self) -> InventoyEndPacket {
        *self
    }

    open spec fn packet_header() -> u16 {
        0x0b0b
    }

    #[verifier::opaque]
    open spec fn payload_decoding(data: Seq<u8>, at: int) -> Result<
        (InventoyEndPacket, nat),
        ConversionError,
    > {
        let inventory_type = u8::decoding(data, at, None);
        let at_flag = behind(at, inventory_type);
        let flag = u8::decoding(data, at_flag, None);
        let behind_all = behind(at_flag, flag);
        if inventory_type is Err {
            Err(inventory_type->Err_0)
        } else if flag is Err {
            Err(flag->Err_0)
        } else {
            Ok(
                (
                    InventoyEndPacket {
                        inventory_type: inventory_type->Ok_0.0,
                        flag: flag->Ok_0.0,
                    },
                    (behind_all - at) as nat,
                ),
            )
        }
    }

    open spec fn encodable(value: InventoyEndPacket) -> bool {
        true
    }

    #[verifier::opaque]
    open spec fn payload_encoding(value: InventoyEndPacket) -> Seq<u8> {
        u8::encoding(value.inventory_type, None) + u8::encoding(value.flag, None)
    }

    fn header() -> (header: u16) {
        0x0b0b
    }

    fn payload_from_bytes(byte_stream: &mut ByteStream) -> (result: Result<
        Self,
        ConversionError,
    >) {
        proof {
            reveal(<InventoyEndPacket as Packet>::payload_decoding);
        }
        let mut cursor = byte_stream.fork();
        let inventory_type = u8::from_bytes(&mut cursor, None)?;
        let flag = u8::from_bytes(&mut cursor, None)?;
        byte_stream.follow(&cursor);
        Ok(InventoyEndPacket { inventory_type, flag })
    }

    fn payload_to_bytes(&self) -> (bytes: Vec<u8>) {
        proof {
            reveal(<InventoyEndPacket as Packet>::payload_encoding);
        }
        let mut bytes = self.inventory_type.to_bytes(None);
        let mut piece = self.flag.to_bytes(None);
        bytes.append(&mut piece);
        bytes
    }

    proof fn lemma_payload_round_trip(value: InventoyEndPacket, data: Seq<u8>, at: int) {
        reveal(<InventoyEndPacket as Packet>::payload_decoding);
        reveal(<InventoyEndPacket as Packet>::payload_encoding);
        let piece_0 = u8::encoding(value.inventory_type, None);
        let piece_1 = u8::encoding(value.flag, None);
        let front_1 = piece_0;
        lemma_holds_at_split(data, at, front_1, piece_1);
        u8::lemma_round_trip(value.inventory_type, None, data, at);
        u8::lemma_round_trip(value.flag, None, data, at + front_1.len());
    }
}

#[derive(Clone, Copy, Debug)]
pub struct ItemOptions {
    pub index: u16,
    pub value: u16,
    pub parameter: u8,
}

impl ByteConvertable for ItemOptions {
    type Model = ItemOptions;

    open spec fn model(&self) -> ItemOptions {
        *self
    }

    open spec fn accepts(length_hint: Option<usize>) -> bool {
        length_hint is None
    }

    #[verifier::opaque]
    open spec fn decoding(data: Seq<u8>, at: int, length_hint: Option<usize>) -> Result<
        (ItemOptions, nat),
        ConversionError,
    > {
        let index = u16::decoding(data, at, None);
        let at_value_field = behind(at, index);
        let value_field = u16::decoding(data, at_value_field, None);
        let at_parameter = behind(at_value_field, value_field);
        let parameter = u8::decoding(data, at_parameter, None);
        let behind_all = behind(at_parameter, parameter);
        if index is Err {
            Err(index->Err_0)
        } else if value_field is Err {
            Err(value_field->Err_0)
        } else if parameter is Err {
            Err(parameter->Err_0)
        } else {
            Ok(
                (
                    ItemOptions {
                        index: index->Ok_0.0,
                        value: value_field->Ok_0.0,
                        parameter: parameter->Ok_0.0,
                    },
                    (behind_all - at) as nat,
                ),
            )
        }
    }

    open spec fn encodable(value: ItemOptions, length_hint: Option<usize>) -> bool {
        true
    }

    #[verifier::opaque]
    open spec fn encoding(value: ItemOptions, length_hint: Option<usize>) -> Seq<u8> {
        u16::encoding(value.index, None)
            + u16::encoding(value.value, None)
            + u8::encoding(value.parameter, None)
    }

    fn from_bytes(byte_stream: &mut ByteStream, length_hint: Option<usize>) -> (result: Result<
        Self,
        ConversionError,
    >) {
        proof {
            reveal(<ItemOptions as ByteConvertable>::decoding);
        }
        let mut cursor = byte_stream.fork();
        let index = u16::from_bytes(&mut cursor, None)?;
        let value_field = u16::from_bytes(&mut cursor, None)?;
        let parameter = u8::from_bytes(&mut cursor, None)?;
        byte_stream.follow(&cursor);
        Ok(ItemOptions { index, value: value_field, parameter })
    }

    fn to_bytes(&self, length_hint: Option<usize>) -> (bytes: Vec<u8>) {
        proof {
            reveal(<ItemOptions as ByteConvertable>::encoding);
        }
        let mut bytes = self.index.to_bytes(None);
        let mut piece = self.value.to_bytes(None);
        bytes.append(&mut piece);
        let mut piece = self.parameter.to_bytes(None);
        bytes.append(&mut piece);
        bytes
    }

    proof fn lemma_round_trip(
        value: ItemOptions,
        length_hint: Option<usize>,
        data: Seq<u8>,
        at: int,
    ) {
        reveal(<ItemOptions as ByteConvertable>::decoding);
        reveal(<ItemOptions as ByteConvertable>::encoding);
        let piece_0 = u16::encoding(value.index, None);
        let piece_1 = u16::encoding(value.value, None);
        let piece_2 = u8::encoding(value.parameter, None);
        let front_1 = piece_0;
        let front_2 = front_1 + piece_1;
        lemma_holds_at_split(data, at, front_2, piece_2);
        lemma_holds_at_split(data, at, front_1, piece_1);
        u16::lemma_round_trip(value.index, None, data, at);
        u16::lemma_round_trip(value.value, None, data, at + front_1.len());
        u8::lemma_round_trip(value.parameter, None, data, at + front_2.len());
    }
}

impl FixedByteSize for ItemOptions {
    open spec fn size() -> nat {
        5
    }

    fn size_in_bytes() -> (size: usize) {
        5
    }

    proof fn lemma_fixed_size(data: Seq<u8>, at: int, value: ItemOptions) {
        reveal(<ItemOptions as ByteConvertable>::decoding);
        reveal(<ItemOptions as ByteConvertable>::encoding);
        assert(Self::size() == 5);
        u16::lemma_fixed_size(data, at, value.index);
        u16::lemma_fixed_size(data, at + 2, value.value);
        u8::lemma_fixed_size(data, at + 4, value.parameter);
    }
}

#[derive(Clone, Copy, Debug)]
pub struct RegularItemInformation {
    pub index: ItemIndex,
    pub item_id: ItemId,
    pub item_type: u8,
    pub amount: u16,
    pub wear_state: u32,
    pub slot: [u32; 4],
    pub hire_expiration_date: i32,
    pub fags: u8,
}

impl ByteConvertable for RegularItemInformation {
    type Model = RegularItemInformation;

    open spec fn model(&self) -> RegularItemInformation {
        *self
    }

    open spec fn accepts(length_hint: Option<usize>) -> bool {
        length_hint is None
    }

    #[verifier::opaque]
    open spec fn decoding(data: Seq<u8>, at: int, length_hint: Option<usize>) -> Result<
        (RegularItemInformation, nat),
        ConversionError,
    > {
        let index = ItemIndex::decoding(data, at, None);
        let at_item_id = behind(at, index);
        let item_id = ItemId::decoding(data, at_item_id, None);
        let at_item_type = behind(at_item_id, item_id);
        let item_type = u8::decoding(data, at_item_type, None);
        let at_amount = behind(at_item_type, item_type);
        let amount = u16::decoding(data, at_amount, None);
        let at_wear_state = behind(at_amount, amount);
        let wear_state = u32::decoding(data, at_wear_state, None);
        let at_slot = behind(at_wear_state, wear_state);
        let slot = <[u32; 4]>::decoding(data, at_slot, None);
        let at_hire_expiration_date = behind(at_slot, slot);
        let hire_expiration_date = i32::decoding(data, at_hire_expiration_date, None);
        let at_fags = behind(at_hire_expiration_date, hire_expiration_date);
        let fags = u8::decoding(data, at_fags, None);
        let behind_all = behind(at_fags, fags);
        if index is Err {
            Err(index->Err_0)
        } else if item_id is Err {
            Err(item_id->Err_0)
        } else if item_type is Err {
            Err(item_type->Err_0)
        } else if amount is Err {
            Err(amount->Err_0)
        } else if wear_state is Err {
            Err(wear_state->Err_0)
        } else if slot is Err {
            Err(slot->Err_0)
        } else if hire_expiration_date is Err {
            Err(hire_expiration_date->Err_0)
        } else if fags is Err {
            Err(fags->Err_0)
        } else {
            Ok(
                (
                    RegularItemInformation {
                        index: index->Ok_0.0,
                        item_id: item_id->Ok_0.0,
                        item_type: item_type->Ok_0.0,
                        amount: amount->Ok_0.0,
                        wear_state: wear_state->Ok_0.0,
                        slot: slot->Ok_0.0,
                        hire_expiration_date: hire_expiration_date->Ok_0.0,
                        fags: fags->Ok_0.0,
                    },
                    (behind_all - at) as nat,
                ),
            )
        }
    }

    open spec fn encodable(value: RegularItemInformation, length_hint: Option<usize>) -> bool {
        ItemIndex::encodable(value.index, None)
    }

    #[verifier::opaque]
    open spec fn encoding(value: RegularItemInformation, length_hint: Option<usize>) -> Seq<u8> {
        ItemIndex::encoding(value.index, None)
            + ItemId::encoding(value.item_id, None)
            + u8::encoding(value.item_type, None)
            + u16::encoding(value.amount, None)
            + u32::encoding(value.wear_state, None)
            + <[u32; 4]>::encoding(value.slot, None)
            + i32::encoding(value.hire_expiration_date, None)
            + u8::encoding(value.fags, None)
    }

    fn from_bytes(byte_stream: &mut ByteStream, length_hint: Option<usize>) -> (result: Result<
        Self,
        ConversionError,
    >) {
        proof {
            reveal(<RegularItemInformation as ByteConvertable>::decoding);
        }
        let mut cursor = byte_stream.fork();
        let index = ItemIndex::from_bytes(&mut cursor, None)?;
        let item_id = ItemId::from_bytes(&mut cursor, None)?;
        let item_type = u8::from_bytes(&mut cursor, None)?;
        let amount = u16::from_bytes(&mut cursor, None)?;
        let wear_state = u32::from_bytes(&mut cursor, None)?;
        let slot = <[u32; 4]>::from_bytes(&mut cursor, None)?;
        let hire_expiration_date = i32::from_bytes(&mut cursor, None)?;
        let fags = u8::from_bytes(&mut cursor, None)?;
        byte_stream.follow(&cursor);
        Ok(RegularItemInformation {
            index,
            item_id,
            item_type,
            amount,
            wear_state,
            slot,
            hire_expiration_date,
            fags,
        })
    }

    fn to_bytes(&self, length_hint: Option<usize>) -> (bytes: Vec<u8>) {
        proof {
            reveal(<RegularItemInformation as ByteConvertable>::encoding);
        }
        let mut bytes = self.index.to_bytes(None);
        let mut piece = self.item_id.to_bytes(None);
        bytes.append(&mut piece);
        let mut piece = self.item_type.to_bytes(None);
        bytes.append(&mut piece);
        let mut piece = self.amount.to_bytes(None);
        bytes.append(&mut piece);
        let mut piece = self.wear_state.to_bytes(None);
        bytes.append(&mut piece);
        let mut piece = self.slot.to_bytes(None);
        bytes.append(&mut piece);
        let mut piece = self.hire_expiration_date.to_bytes(None);
        bytes.append(&mut piece);
        let mut piece = self.fags.to_bytes(None);
        bytes.append(&mut piece);
        bytes
    }

    proof fn lemma_round_trip(
        value: RegularItemInformation,
        length_hint: Option<usize>,
        data: Seq<u8>,
        at: int,
    ) {
        reveal(<RegularItemInformation as ByteConvertable>::decoding);
        reveal(<RegularItemInformation as ByteConvertable>::encoding);
        let piece_0 = ItemIndex::encoding(value.index, None);
        let piece_1 = ItemId::encoding(value.item_id, None);
        let piece_2 = u8::encoding(value.item_type, None);
        let piece_3 = u16::encoding(value.amount, None);
        let piece_4 = u32::encoding(value.wear_state, None);
        let piece_5 = <[u32; 4]>::encoding(value.slot, None);
        let piece_6 = i32::encoding(value.hire_expiration_date, None);
        let piece_7 = u8::encoding(value.fags, None);
        let front_1 = piece_0;
        let front_2 = front_1 + piece_1;
        let front_3 = front_2 + piece_2;
        let front_4 = front_3 + piece_3;
        let front_5 = front_4 + piece_4;
        let front_6 = front_5 + piece_5;
        let front_7 = front_6 + piece_6;
        lemma_holds_at_split(data, at, front_7, piece_7);
        lemma_holds_at_split(data, at, front_6, piece_6);
        lemma_holds_at_split(data, at, front_5, piece_5);
        lemma_holds_at_split(data, at, front_4, piece_4);
        lemma_holds_at_split(data, at, front_3, piece_3);
        lemma_holds_at_split(data, at, front_2, piece_2);
        lemma_holds_at_split(data, at, front_1, piece_1);
        ItemIndex::lemma_round_trip(value.index, None, data, at);
        ItemId::lemma_round_trip(value.item_id, None, data, at + front_1.len());
        u8::lemma_round_trip(value.item_type, None, data, at + front_2.len());
        u16::lemma_round_trip(value.amount, None, data, at + front_3.len());
        u32::lemma_round_trip(value.wear_state, None, data, at + front_4.len());
        <[u32; 4]>::lemma_round_trip(value.slot, None, data, at + front_5.len());
        i32::lemma_round_trip(value.hire_expiration_date, None, data, at + front_6.len());
        u8::lemma_round_trip(value.fags, None, data, at + front_7.len());
    }
}

impl FixedByteSize for RegularItemInformation {
    open spec fn size() -> nat {
        34
    }

    fn size_in_bytes() -> (size: usize) {
        34
    }

    proof fn lemma_fixed_size(data: Seq<u8>, at: int, value: RegularItemInformation) {
        reveal(<RegularItemInformation as ByteConvertable>::decoding);
        reveal(<RegularItemInformation as ByteConvertable>::encoding);
        assert(Self::size() == 34);
        ItemIndex::lemma_fixed_size(data, at, value.index);
        ItemId::lemma_fixed_size(data, at + 2, value.item_id);
        u8::lemma_fixed_size(data, at + 6, value.item_type);
        u16::lemma_fixed_size(data, at + 7, value.amount);
        u32::lemma_fixed_size(data, at + 9, value.wear_state);
        lemma_repeated_size::<u32>(data, at + 13, value.slot@);
        i32::lemma_fixed_size(data, at + 29, value.hire_expiration_date);
        u8::lemma_fixed_size(data, at + 33, value.fags);
    }
}

#[derive(Clone, Debug)]
pub struct RegularItemListPacket {
    pub packet_length: u16,
    pub inventory_type: u8,
    pub item_information: Vec<RegularItemInformation>,
}

/// What a [`RegularItemListPacket`] stands for.
pub struct RegularItemListPacketModel {
    pub packet_length: u16,
    pub inventory_type: u8,
    pub item_information: Seq<RegularItemInformation>,
}

impl Packet for RegularItemListPacket {
    type Model = RegularItemListPacketModel;

    const PACKET_NAME: &'static str = "RegularItemListPacket";

    const IS_PING: bool = false;

    open spec fn model(&self) -> RegularItemListPacketModel {
        RegularItemListPacketModel {
            packet_length: self.packet_length.model(),
            inventory_type: self.inventory_type.model(),
            item_information: models(self.item_information@),
        }
    }

    open spec fn packet_header() -> u16 {
        0x0b09
    }

    #[verifier::opaque]
    open spec fn payload_decoding(data: Seq<u8>, at: int) -> Result<
        (RegularItemListPacketModel, nat),
        ConversionError,
    > {
        let packet_length = u16::decoding(data, at, None);
        let end = at - 2 + packet_length->Ok_0.0;
        let frame = data.take(end);
        let at_inventory_type = behind(at, packet_length);
        let inventory_type = u8::decoding(frame, at_inventory_type, None);
        let at_item_information = behind(at_inventory_type, inventory_type);
        let item_information = repeated_decoding::<RegularItemInformation>(
            frame,
            at_item_information,
            whole_count::<RegularItemInformation>(packet_length->Ok_0.0 - 5)->Some_0,
        );
        let behind_all = behind(at_item_information, item_information);
        if packet_length is Err {
            Err(packet_length->Err_0)
        } else if packet_length->Ok_0.0 < 5 {
            Err(ConversionError::Invalid)
        } else if end > data.len() {
            Err(ConversionError::Incomplete)
        } else if whole_count::<RegularItemInformation>(packet_length->Ok_0.0 - 5) is None
            || inventory_type is Err
            || item_information is Err
            || behind_all != end {
            Err(ConversionError::Invalid)
        } else {
            Ok(
                (
                    RegularItemListPacketModel {
                        packet_length: packet_length->Ok_0.0,
                        inventory_type: inventory_type->Ok_0.0,
                        item_information: item_information->Ok_0.0,
                    },
                    (behind_all - at) as nat,
                ),
            )
        }
    }

    open spec fn encodable(value: RegularItemListPacketModel) -> bool {
        &&& all_encodable::<RegularItemInformation>(value.item_information)
        &&& value.packet_length == 2 + Self::payload_encoding(value).len()
    }

    #[verifier::opaque]
    open spec fn payload_encoding(value: RegularItemListPacketModel) -> Seq<u8> {
        u16::encoding(value.packet_length, None)
            + u8::encoding(value.inventory_type, None)
            + repeated_encoding::<RegularItemInformation>(value.item_information)
    }

    fn header() -> (header: u16) {
        0x0b09
    }

    #[verifier::rlimit(40)]
    fn payload_from_bytes(byte_stream: &mut ByteStream) -> (result: Result<
        Self,
        ConversionError,
    >) {
        proof {
            reveal(<RegularItemListPacket as Packet>::payload_decoding);
        }
        let mut cursor = byte_stream.fork();
        let packet_length = u16::from_bytes(&mut cursor, None)?;
        if packet_length < 5 {
            return Err(ConversionError::Invalid);
        }
        if cursor.remaining_length() < (packet_length - 4) as usize {
            return Err(ConversionError::Incomplete);
        }
        let end = cursor.get_offset() + (packet_length - 4) as usize;
        let mut frame = cursor.frame(end);
        let inventory_type = match u8::from_bytes(&mut frame, None) {
            Ok(value) => value,
            Err(_) => return Err(ConversionError::Invalid),
        };
        let count = match count_whole::<RegularItemInformation>((packet_length - 5) as usize) {
            Some(count) => count,
            None => return Err(ConversionError::Invalid),
        };
        let item_information = match decode_repeated::<RegularItemInformation>(&mut frame, count) {
            Ok(value) => value,
            Err(_) => return Err(ConversionError::Invalid),
        };
        if !frame.is_empty() {
            return Err(ConversionError::Invalid);
        }
        byte_stream.follow(&frame);
        Ok(RegularItemListPacket { packet_length, inventory_type, item_information })
    }

    fn payload_to_bytes(&self) -> (bytes: Vec<u8>) {
        proof {
            reveal(<RegularItemListPacket as Packet>::payload_encoding);
        }
        let mut bytes = self.packet_length.to_bytes(None);
        let mut piece = self.inventory_type.to_bytes(None);
        bytes.append(&mut piece);
        let mut piece = encode_repeated::<RegularItemInformation>(&self.item_information);
        bytes.append(&mut piece);
        bytes
    }

    #[verifier::rlimit(40)]
    proof fn lemma_payload_round_trip(value: RegularItemListPacketModel, data: Seq<u8>, at: int) {
        reveal(<RegularItemListPacket as Packet>::payload_decoding);
        reveal(<RegularItemListPacket as Packet>::payload_encoding);
        let piece_0 = u16::encoding(value.packet_length, None);
        let piece_1 = u8::encoding(value.inventory_type, None);
        let piece_2 = repeated_encoding::<RegularItemInformation>(value.item_information);
        let front_1 = piece_0;
        let front_2 = front_1 + piece_1;
        lemma_holds_at_split(data, at, front_2, piece_2);
        lemma_holds_at_split(data, at, front_1, piece_1);
        lemma_holds_at_bounds(data, at, Self::payload_encoding(value));
        let end = at - 2 + value.packet_length;
        let frame = data.take(end);
        u16::lemma_round_trip(value.packet_length, None, data, at);
        lemma_holds_at_take(data, end, at + front_1.len(), piece_1);
        u8::lemma_round_trip(value.inventory_type, None, frame, at + front_1.len());
        lemma_holds_at_take(data, end, at + front_2.len(), piece_2);
        lemma_repeated_size::<RegularItemInformation>(
            frame,
            at + front_2.len(),
            value.item_information,
        );
        assert(RegularItemInformation::size() == 34);
        lemma_whole_count::<RegularItemInformation>(value.item_information.len());
        lemma_repeated_round_trip::<RegularItemInformation>(
            value.item_information,
            frame,
            at + front_2.len(),
        );
    }
}

impl LengthPrefixed for RegularItemListPacket {
    open spec fn announced_length(value: RegularItemListPacketModel) -> u16 {
        value.packet_length
    }

    proof fn lemma_exact_length(data: Seq<u8>, at: int) {
        reveal(<RegularItemListPacket as Packet>::payload_decoding);
    }
}

#[derive(Clone, Debug)]
pub struct EquippableItemInformation {
    pub index: ItemIndex,
    pub item_id: ItemId,
    pub item_type: u8,
    pub equip_position: EquipPosition,
    pub equipped_position: EquipPosition,
    pub slot: [u32; 4],
    pub hire_expiration_date: i32,
    pub bind_on_equip_type: u16,
    pub w_item_sprite_number: u16,
    pub option_count: u8,
    pub option_data: [ItemOptions; 5],
    pub refinement_level: u8,
    pub enchantment_level: u8,
    pub fags: u8,
}

/// What a [`EquippableItemInformation`] stands for.
pub struct EquippableItemInformationModel {
    pub index: ItemIndex,
    pub item_id: ItemId,
    pub item_type: u8,
    pub equip_position: EquipPosition,
    pub equipped_position: EquipPosition,
    pub slot: [u32; 4],
    pub hire_expiration_date: i32,
    pub bind_on_equip_type: u16,
    pub w_item_sprite_number: u16,
    pub option_count: u8,
    pub option_data: Seq<ItemOptions>,
    pub refinement_level: u8,
    pub enchantment_level: u8,
    pub fags: u8,
}

impl EquippableItemInformation {
    /// What the fields from `index` to `bind_on_equip_type` decode to.
    #[verifier::opaque]
    pub open spec fn decoding_part_1(data: Seq<u8>, at: int) -> Result<
        ((ItemIndex, ItemId, u8, EquipPosition, EquipPosition, [u32; 4], i32, u16), nat),
        ConversionError,
    > {
        let index = ItemIndex::decoding(data, at, None);
        let at_item_id = behind(at, index);
        let item_id = ItemId::decoding(data, at_item_id, None);
        let at_item_type = behind(at_item_id, item_id);
        let item_type = u8::decoding(data, at_item_type, None);
        let at_equip_position = behind(at_item_type, item_type);
        let equip_position = EquipPosition::decoding(data, at_equip_position, None);
        let at_equipped_position = behind(at_equip_position, equip_position);
        let equipped_position = EquipPosition::decoding(data, at_equipped_position, None);
        let at_slot = behind(at_equipped_position, equipped_position);
        let slot = <[u32; 4]>::decoding(data, at_slot, None);
        let at_hire_expiration_date = behind(at_slot, slot);
        let hire_expiration_date = i32::decoding(data, at_hire_expiration_date, None);
        let at_bind_on_equip_type = behind(at_hire_expiration_date, hire_expiration_date);
        let bind_on_equip_type = u16::decoding(data, at_bind_on_equip_type, None);
        let behind_all = behind(at_bind_on_equip_type, bind_on_equip_type);
        if index is Err {
            Err(index->Err_0)
        } else if item_id is Err {
            Err(item_id->Err_0)
        } else if item_type is Err {
            Err(item_type->Err_0)
        } else if equip_position is Err {
            Err(equip_position->Err_0)
        } else if equipped_position is Err {
            Err(equipped_position->Err_0)
        } else if slot is Err {
            Err(slot->Err_0)
        } else if hire_expiration_date is Err {
            Err(hire_expiration_date->Err_0)
        } else if bind_on_equip_type is Err {
            Err(bind_on_equip_type->Err_0)
        } else {
            Ok(
                (
                    (
                        index->Ok_0.0,
                        item_id->Ok_0.0,
                        item_type->Ok_0.0,
                        equip_position->Ok_0.0,
                        equipped_position->Ok_0.0,
                        slot->Ok_0.0,
                        hire_expiration_date->Ok_0.0,
                        bind_on_equip_type->Ok_0.0,
                    ),
                    (behind_all - at) as nat,
                ),
            )
        }
    }

    /// Whether the fields from `index` to `bind_on_equip_type` have a wire form.
    pub open spec fn encodable_part_1(value: EquippableItemInformationModel) -> bool {
        ItemIndex::encodable(value.index, None)
    }

    /// The wire form of the fields from `index` to `bind_on_equip_type`.
    #[verifier::opaque]
    pub open spec fn encoding_part_1(value: EquippableItemInformationModel) -> Seq<u8> {
        ItemIndex::encoding(value.index, None)
            + ItemId::encoding(value.item_id, None)
            + u8::encoding(value.item_type, None)
            + EquipPosition::encoding(value.equip_position, None)
            + EquipPosition::encoding(value.equipped_position, None)
            + <[u32; 4]>::encoding(value.slot, None)
            + i32::encoding(value.hire_expiration_date, None)
            + u16::encoding(value.bind_on_equip_type, None)
    }

    fn decode_part_1(byte_stream: &mut ByteStream) -> (result: Result<
        (ItemIndex, ItemId, u8, EquipPosition, EquipPosition, [u32; 4], i32, u16),
        ConversionError,
    >)
        ensures
            final(byte_stream).data() == old(byte_stream).data(),
            final(byte_stream).version() == old(byte_stream).version(),
            match Self::decoding_part_1(old(byte_stream).data(), old(byte_stream).offset() as int) {
                Ok((value, length)) => {
                    &&& result is Ok
                    &&& result->Ok_0.0.model() == value.0
                    &&& result->Ok_0.1.model() == value.1
                    &&& result->Ok_0.2.model() == value.2
                    &&& result->Ok_0.3.model() == value.3
                    &&& result->Ok_0.4.model() == value.4
                    &&& result->Ok_0.5.model() == value.5
                    &&& result->Ok_0.6.model() == value.6
                    &&& result->Ok_0.7.model() == value.7
                    &&& final(byte_stream).offset() == old(byte_stream).offset() + length
                },
                Err(error) => {
                    &&& result is Err
                    &&& result->Err_0 == error
                    &&& final(byte_stream).offset() == old(byte_stream).offset()
                },
            },
    {
        proof {
            reveal(EquippableItemInformation::decoding_part_1);
        }
        let mut cursor = byte_stream.fork();
        let index = ItemIndex::from_bytes(&mut cursor, None)?;
        let item_id = ItemId::from_bytes(&mut cursor, None)?;
        let item_type = u8::from_bytes(&mut cursor, None)?;
        let equip_position = EquipPosition::from_bytes(&mut cursor, None)?;
        let equipped_position = EquipPosition::from_bytes(&mut cursor, None)?;
        let slot = <[u32; 4]>::from_bytes(&mut cursor, None)?;
        let hire_expiration_date = i32::from_bytes(&mut cursor, None)?;
        let bind_on_equip_type = u16::from_bytes(&mut cursor, None)?;
        byte_stream.follow(&cursor);
        Ok((
            index,
            item_id,
            item_type,
            equip_position,
            equipped_position,
            slot,
            hire_expiration_date,
            bind_on_equip_type,
        ))
    }

    fn encode_part_1(&self) -> (bytes: Vec<u8>)
        requires
            Self::encodable_part_1(self.model()),
        ensures
            bytes@ == Self::encoding_part_1(self.model()),
    {
        proof {
            reveal(EquippableItemInformation::encoding_part_1);
        }
        let mut bytes = self.index.to_bytes(None);
        let mut piece = self.item_id.to_bytes(None);
        bytes.append(&mut piece);
        let mut piece = self.item_type.to_bytes(None);
        bytes.append(&mut piece);
        let mut piece = self.equip_position.to_bytes(None);
        bytes.append(&mut piece);
        let mut piece = self.equipped_position.to_bytes(None);
        bytes.append(&mut piece);
        let mut piece = self.slot.to_bytes(None);
        bytes.append(&mut piece);
        let mut piece = self.hire_expiration_date.to_bytes(None);
        bytes.append(&mut piece);
        let mut piece = self.bind_on_equip_type.to_bytes(None);
        bytes.append(&mut piece);
        bytes
    }

    #[verifier::rlimit(50)]
    proof fn lemma_round_trip_part_1(value: EquippableItemInformationModel, data: Seq<u8>, at: int)
        requires
            Self::encodable_part_1(value),
            holds_at(data, at, Self::encoding_part_1(value)),
        ensures
            Self::decoding_part_1(data, at) == Ok::<
                ((ItemIndex, ItemId, u8, EquipPosition, EquipPosition, [u32; 4], i32, u16), nat),
                ConversionError,
            >(
                (
                    (
                        value.index,
                        value.item_id,
                        value.item_type,
                        value.equip_position,
                        value.equipped_position,
                        value.slot,
                        value.hire_expiration_date,
                        value.bind_on_equip_type,
                    ),
                    Self::encoding_part_1(value).len(),
                ),
            ),
    {
        reveal(EquippableItemInformation::decoding_part_1);
        reveal(EquippableItemInformation::encoding_part_1);
        let piece_0 = ItemIndex::encoding(value.index, None);
        let piece_1 = ItemId::encoding(value.item_id, None);
        let piece_2 = u8::encoding(value.item_type, None);
        let piece_3 = EquipPosition::encoding(value.equip_position, None);
        let piece_4 = EquipPosition::encoding(value.equipped_position, None);
        let piece_5 = <[u32; 4]>::encoding(value.slot, None);
        let piece_6 = i32::encoding(value.hire_expiration_date, None);
        let piece_7 = u16::encoding(value.bind_on_equip_type, None);
        let front_1 = piece_0;
        let front_2 = front_1 + piece_1;
        let front_3 = front_2 + piece_2;
        let front_4 = front_3 + piece_3;
        let front_5 = front_4 + piece_4;
        let front_6 = front_5 + piece_5;
        let front_7 = front_6 + piece_6;
        lemma_holds_at_split(data, at, front_7, piece_7);
        lemma_holds_at_split(data, at, front_6, piece_6);
        lemma_holds_at_split(data, at, front_5, piece_5);
        lemma_holds_at_split(data, at, front_4, piece_4);
        lemma_holds_at_split(data, at, front_3, piece_3);
        lemma_holds_at_split(data, at, front_2, piece_2);
        lemma_holds_at_split(data, at, front_1, piece_1);
        ItemIndex::lemma_round_trip(value.index, None, data, at);
        ItemId::lemma_round_trip(value.item_id, None, data, at + front_1.len());
        u8::lemma_round_trip(value.item_type, None, data, at + front_2.len());
        EquipPosition::lemma_round_trip(value.equip_position, None, data, at + front_3.len());
        EquipPosition::lemma_round_trip(value.equipped_position, None, data, at + front_4.len());
        <[u32; 4]>::lemma_round_trip(value.slot, None, data, at + front_5.len());
        i32::lemma_round_trip(value.hire_expiration_date, None, data, at + front_6.len());
        u16::lemma_round_trip(value.bind_on_equip_type, None, data, at + front_7.len());
    }

    proof fn lemma_size_part_1(data: Seq<u8>, at: int, value: EquippableItemInformationModel)
        ensures
            Self::decoding_part_1(data, at) matches Ok((_, length)) ==> length == 37,
            Self::encodable_part_1(value) ==> Self::encoding_part_1(value).len() == 37,
    {
        reveal(EquippableItemInformation::decoding_part_1);
        reveal(EquippableItemInformation::encoding_part_1);
        ItemIndex::lemma_fixed_size(data, at, value.index);
        ItemId::lemma_fixed_size(data, at + 2, value.item_id);
        u8::lemma_fixed_size(data, at + 6, value.item_type);
        EquipPosition::lemma_fixed_size(data, at + 7, value.equip_position);
        EquipPosition::lemma_fixed_size(data, at + 11, value.equipped_position);
        lemma_repeated_size::<u32>(data, at + 15, value.slot@);
        i32::lemma_fixed_size(data, at + 31, value.hire_expiration_date);
        u16::lemma_fixed_size(data, at + 35, value.bind_on_equip_type);
    }

    /// What the fields from `w_item_sprite_number` to `option_count` decode to.
    #[verifier::opaque]
    pub open spec fn decoding_part_2(data: Seq<u8>, at: int) -> Result<
        ((u16, u8), nat),
        ConversionError,
    > {
        let w_item_sprite_number = u16::decoding(data, at, None);
        let at_option_count = behind(at, w_item_sprite_number);
        let option_count = u8::decoding(data, at_option_count, None);
        let behind_all = behind(at_option_count, option_count);
        if w_item_sprite_number is Err {
            Err(w_item_sprite_number->Err_0)
        } else if option_count is Err {
            Err(option_count->Err_0)
        } else {
            Ok(
                (
                    (
                        w_item_sprite_number->Ok_0.0,
                        option_count->Ok_0.0,
                    ),
                    (behind_all - at) as nat,
                ),
            )
        }
    }

    /// The wire form of the fields from `w_item_sprite_number` to `option_count`.
    #[verifier::opaque]
    pub open spec fn encoding_part_2(value: EquippableItemInformationModel) -> Seq<u8> {
        u16::encoding(value.w_item_sprite_number, None) + u8::encoding(value.option_count, None)
    }

    fn decode_part_2(byte_stream: &mut ByteStream) -> (result: Result<
        (u16, u8),
        ConversionError,
    >)
        ensures
            final(byte_stream).data() == old(byte_stream).data(),
            final(byte_stream).version() == old(byte_stream).version(),
            match Self::decoding_part_2(old(byte_stream).data(), old(byte_stream).offset() as int) {
                Ok((value, length)) => {
                    &&& result is Ok
                    &&& result->Ok_0.0.model() == value.0
                    &&& result->Ok_0.1.model() == value.1
                    &&& final(byte_stream).offset() == old(byte_stream).offset() + length
                },
                Err(error) => {
                    &&& result is Err
                    &&& result->Err_0 == error
                    &&& final(byte_stream).offset() == old(byte_stream).offset()
                },
            },
    {
        proof {
            reveal(EquippableItemInformation::decoding_part_2);
        }
        let mut cursor = byte_stream.fork();
        let w_item_sprite_number = u16::from_bytes(&mut cursor, None)?;
        let option_count = u8::from_bytes(&mut cursor, None)?;
        byte_stream.follow(&cursor);
        Ok((w_item_sprite_number, option_count))
    }

    fn encode_part_2(&self) -> (bytes: Vec<u8>)
        ensures
            bytes@ == Self::encoding_part_2(self.model()),
    {
        proof {
            reveal(EquippableItemInformation::encoding_part_2);
        }
        let mut bytes = self.w_item_sprite_number.to_bytes(None);
        let mut piece = self.option_count.to_bytes(None);
        bytes.append(&mut piece);
        bytes
    }

    #[verifier::rlimit(50)]
    proof fn lemma_round_trip_part_2(value: EquippableItemInformationModel, data: Seq<u8>, at: int)
        requires
            holds_at(data, at, Self::encoding_part_2(value)),
        ensures
            Self::decoding_part_2(data, at) == Ok::<((u16, u8), nat), ConversionError>(
                (
                    (
                        value.w_item_sprite_number,
                        value.option_count,
                    ),
                    Self::encoding_part_2(value).len(),
                ),
            ),
    {
        reveal(EquippableItemInformation::decoding_part_2);
        reveal(EquippableItemInformation::encoding_part_2);
        let piece_0 = u16::encoding(value.w_item_sprite_number, None);
        let piece_1 = u8::encoding(value.option_count, None);
        let front_1 = piece_0;
        lemma_holds_at_split(data, at, front_1, piece_1);
        u16::lemma_round_trip(value.w_item_sprite_number, None, data, at);
        u8::lemma_round_trip(value.option_count, None, data, at + front_1.len());
    }

    proof fn lemma_size_part_2(data: Seq<u8>, at: int, value: EquippableItemInformationModel)
        ensures
            Self::decoding_part_2(data, at) matches Ok((_, length)) ==> length == 3,
            Self::encoding_part_2(value).len() == 3,
    {
        reveal(EquippableItemInformation::decoding_part_2);
        reveal(EquippableItemInformation::encoding_part_2);
        u16::lemma_fixed_size(data, at, value.w_item_sprite_number);
        u8::lemma_fixed_size(data, at + 2, value.option_count);
    }

    /// What the fields from `refinement_level` to `fags` decode to.
    #[verifier::opaque]
    pub open spec fn decoding_part_3(data: Seq<u8>, at: int) -> Result<
        ((u8, u8, u8), nat),
        ConversionError,
    > {
        let refinement_level = u8::decoding(data, at, None);
        let at_enchantment_level = behind(at, refinement_level);
        let enchantment_level = u8::decoding(data, at_enchantment_level, None);
        let at_fags = behind(at_enchantment_level, enchantment_level);
        let fags = u8::decoding(data, at_fags, None);
        let behind_all = behind(at_fags, fags);
        if refinement_level is Err {
            Err(refinement_level->Err_0)
        } else if enchantment_level is Err {
            Err(enchantment_level->Err_0)
        } else if fags is Err {
            Err(fags->Err_0)
        } else {
            Ok(
                (
                    (
                        refinement_level->Ok_0.0,
                        enchantment_level->Ok_0.0,
                        fags->Ok_0.0,
                    ),
                    (behind_all - at) as nat,
                ),
            )
        }
    }

    /// The wire form of the fields from `refinement_level` to `fags`.
    #[verifier::opaque]
    pub open spec fn encoding_part_3(value: EquippableItemInformationModel) -> Seq<u8> {
        u8::encoding(value.refinement_level, None)
            + u8::encoding(value.enchantment_level, None)
            + u8::encoding(value.fags, None)
    }

    fn decode_part_3(byte_stream: &mut ByteStream) -> (result: Result<
        (u8, u8, u8),
        ConversionError,
    >)
        ensures
            final(byte_stream).data() == old(byte_stream).data(),
            final(byte_stream).version() == old(byte_stream).version(),
            match Self::decoding_part_3(old(byte_stream).data(), old(byte_stream).offset() as int) {
                Ok((value, length)) => {
                    &&& result is Ok
                    &&& result->Ok_0.0.model() == value.0
                    &&& result->Ok_0.1.model() == value.1
                    &&& result->Ok_0.2.model() == value.2
                    &&& final(byte_stream).offset() == old(byte_stream).offset() + length
                },
                Err(error) => {
                    &&& result is Err
                    &&& result->Err_0 == error
                    &&& final(byte_stream).offset() == old(byte_stream).offset()
                },
            },
    {
        proof {
            reveal(EquippableItemInformation::decoding_part_3);
        }
        let mut cursor = byte_stream.fork();
        let refinement_level = u8::from_bytes(&mut cursor, None)?;
        let enchantment_level = u8::from_bytes(&mut cursor, None)?;
        let fags = u8::from_bytes(&mut cursor, None)?;
        byte_stream.follow(&cursor);
        Ok((refinement_level, enchantment_level, fags))
    }

    fn encode_part_3(&self) -> (bytes: Vec<u8>)
        ensures
            bytes@ == Self::encoding_part_3(self.model()),
    {
        proof {
            reveal(EquippableItemInformation::encoding_part_3);
        }
        let mut bytes = self.refinement_level.to_bytes(None);
        let mut piece = self.enchantment_level.to_bytes(None);
        bytes.append(&mut piece);
        let mut piece = self.fags.to_bytes(None);
        bytes.append(&mut piece);
        bytes
    }

    #[verifier::rlimit(50)]
    proof fn lemma_round_trip_part_3(value: EquippableItemInformationModel, data: Seq<u8>, at: int)
        requires
            holds_at(data, at, Self::encoding_part_3(value)),
        ensures
            Self::decoding_part_3(data, at) == Ok::<((u8, u8, u8), nat), ConversionError>(
                (
                    (
                        value.refinement_level,
                        value.enchantment_level,
                        value.fags,
                    ),
                    Self::encoding_part_3(value).len(),
                ),
            ),
    {
        reveal(EquippableItemInformation::decoding_part_3);
        reveal(EquippableItemInformation::encoding_part_3);
        let piece_0 = u8::encoding(value.refinement_level, None);
        let piece_1 = u8::encoding(value.enchantment_level, None);
        let piece_2 = u8::encoding(value.fags, None);
        let front_1 = piece_0;
        let front_2 = front_1 + piece_1;
        lemma_holds_at_split(data, at, front_2, piece_2);
        lemma_holds_at_split(data, at, front_1, piece_1);
        u8::lemma_round_trip(value.refinement_level, None, data, at);
        u8::lemma_round_trip(value.enchantment_level, None, data, at + front_1.len());
        u8::lemma_round_trip(value.fags, None, data, at + front_2.len());
    }

    proof fn lemma_size_part_3(data: Seq<u8>, at: int, value: EquippableItemInformationModel)
        ensures
            Self::decoding_part_3(data, at) matches Ok((_, length)) ==> length == 3,
            Self::encoding_part_3(value).len() == 3,
    {
        reveal(EquippableItemInformation::decoding_part_3);
        reveal(EquippableItemInformation::encoding_part_3);
        u8::lemma_fixed_size(data, at, value.refinement_level);
        u8::lemma_fixed_size(data, at + 1, value.enchantment_level);
        u8::lemma_fixed_size(data, at + 2, value.fags);
    }
}

impl ByteConvertable for EquippableItemInformation {
    type Model = EquippableItemInformationModel;

    open spec fn model(&self) -> EquippableItemInformationModel {
        EquippableItemInformationModel {
            index: self.index.model(),
            item_id: self.item_id.model(),
            item_type: self.item_type.model(),
            equip_position: self.equip_position.model(),
            equipped_position: self.equipped_position.model(),
            slot: self.slot.model(),
            hire_expiration_date: self.hire_expiration_date.model(),
            bind_on_equip_type: self.bind_on_equip_type.model(),
            w_item_sprite_number: self.w_item_sprite_number.model(),
            option_count: self.option_count.model(),
            option_data: models(self.option_data@),
            refinement_level: self.refinement_level.model(),
            enchantment_level: self.enchantment_level.model(),
            fags: self.fags.model(),
        }
    }

    open spec fn accepts(length_hint: Option<usize>) -> bool {
        length_hint is None
    }

    #[verifier::opaque]
    open spec fn decoding(data: Seq<u8>, at: int, length_hint: Option<usize>) -> Result<
        (EquippableItemInformationModel, nat),
        ConversionError,
    > {
        let part_1 = Self::decoding_part_1(data, at);
        let at_part_2 = behind(at, part_1);
        let part_2 = Self::decoding_part_2(data, at_part_2);
        let at_option_data = behind(at_part_2, part_2);
        let option_data = repeated_decoding::<ItemOptions>(data, at_option_data, 5);
        let at_part_3 = behind(at_option_data, option_data);
        let part_3 = Self::decoding_part_3(data, at_part_3);
        let behind_all = behind(at_part_3, part_3);
        if part_1 is Err {
            Err(part_1->Err_0)
        } else if part_2 is Err {
            Err(part_2->Err_0)
        } else if option_data is Err {
            Err(option_data->Err_0)
        } else if part_3 is Err {
            Err(part_3->Err_0)
        } else {
            Ok(
                (
                    EquippableItemInformationModel {
                        index: part_1->Ok_0.0.0,
                        item_id: part_1->Ok_0.0.1,
                        item_type: part_1->Ok_0.0.2,
                        equip_position: part_1->Ok_0.0.3,
                        equipped_position: part_1->Ok_0.0.4,
                        slot: part_1->Ok_0.0.5,
                        hire_expiration_date: part_1->Ok_0.0.6,
                        bind_on_equip_type: part_1->Ok_0.0.7,
                        w_item_sprite_number: part_2->Ok_0.0.0,
                        option_count: part_2->Ok_0.0.1,
                        option_data: option_data->Ok_0.0,
                        refinement_level: part_3->Ok_0.0.0,
                        enchantment_level: part_3->Ok_0.0.1,
                        fags: part_3->Ok_0.0.2,
                    },
                    (behind_all - at) as nat,
                ),
            )
        }
    }

    open spec fn encodable(
        value: EquippableItemInformationModel,
        length_hint: Option<usize>,
    ) -> bool {
        &&& Self::encodable_part_1(value)
        &&& all_encodable::<ItemOptions>(value.option_data)
        &&& value.option_data.len() == 5
    }

    #[verifier::opaque]
    open spec fn encoding(
        value: EquippableItemInformationModel,
        length_hint: Option<usize>,
    ) -> Seq<u8> {
        Self::encoding_part_1(value)
            + Self::encoding_part_2(value)
            + repeated_encoding::<ItemOptions>(value.option_data)
            + Self::encoding_part_3(value)
    }

    fn from_bytes(byte_stream: &mut ByteStream, length_hint: Option<usize>) -> (result: Result<
        Self,
        ConversionError,
    >) {
        proof {
            reveal(<EquippableItemInformation as ByteConvertable>::decoding);
        }
        let mut cursor = byte_stream.fork();
        let (
            index,
            item_id,
            item_type,
            equip_position,
            equipped_position,
            slot,
            hire_expiration_date,
            bind_on_equip_type,
        ) = Self::decode_part_1(
            &mut cursor,
        )?;
        let (w_item_sprite_number, option_count) = Self::decode_part_2(&mut cursor)?;
        let option_data = decode_fixed::<ItemOptions, 5>(&mut cursor)?;
        let (refinement_level, enchantment_level, fags) = Self::decode_part_3(&mut cursor)?;
        byte_stream.follow(&cursor);
        Ok(EquippableItemInformation {
            index,
            item_id,
            item_type,
            equip_position,
            equipped_position,
            slot,
            hire_expiration_date,
            bind_on_equip_type,
            w_item_sprite_number,
            option_count,
            option_data,
            refinement_level,
            enchantment_level,
            fags,
        })
    }

    fn to_bytes(&self, length_hint: Option<usize>) -> (bytes: Vec<u8>) {
        proof {
            reveal(<EquippableItemInformation as ByteConvertable>::encoding);
        }
        let mut bytes = self.encode_part_1();
        let mut piece = self.encode_part_2();
        bytes.append(&mut piece);
        let mut piece = encode_fixed::<ItemOptions, 5>(&self.option_data);
        bytes.append(&mut piece);
        let mut piece = self.encode_part_3();
        bytes.append(&mut piece);
        bytes
    }

    proof fn lemma_round_trip(
        value: EquippableItemInformationModel,
        length_hint: Option<usize>,
        data: Seq<u8>,
        at: int,
    ) {
        reveal(<EquippableItemInformation as ByteConvertable>::decoding);
        reveal(<EquippableItemInformation as ByteConvertable>::encoding);
        let piece_0 = Self::encoding_part_1(value);
        let piece_1 = Self::encoding_part_2(value);
        let piece_2 = repeated_encoding::<ItemOptions>(value.option_data);
        let piece_3 = Self::encoding_part_3(value);
        let front_1 = piece_0;
        let front_2 = front_1 + piece_1;
        let front_3 = front_2 + piece_2;
        lemma_holds_at_split(data, at, front_3, piece_3);
        lemma_holds_at_split(data, at, front_2, piece_2);
        lemma_holds_at_split(data, at, front_1, piece_1);
        Self::lemma_round_trip_part_1(value, data, at);
        Self::lemma_round_trip_part_2(value, data, at + front_1.len());
        lemma_repeated_round_trip::<ItemOptions>(value.option_data, data, at + front_2.len());
        Self::lemma_round_trip_part_3(value, data, at + front_3.len());
    }
}

impl FixedByteSize for EquippableItemInformation {
    open spec fn size() -> nat {
        68
    }

    fn size_in_bytes() -> (size: usize) {
        68
    }

    proof fn lemma_fixed_size(data: Seq<u8>, at: int, value: EquippableItemInformationModel) {
        reveal(<EquippableItemInformation as ByteConvertable>::decoding);
        reveal(<EquippableItemInformation as ByteConvertable>::encoding);
        assert(Self::size() == 68);
        Self::lemma_size_part_1(data, at, value);
        Self::lemma_size_part_2(data, at + 37, value);
        lemma_repeated_size::<ItemOptions>(data, at + 40, value.option_data);
        lemma_repeated_size::<ItemOptions>(
            data,
            at + 40,
            Seq::new(5, |i: int| arbitrary::<ItemOptions>()),
        );
        assert(ItemOptions::size() == 5);
        Self::lemma_size_part_3(data, at + 65, value);
    }
}

#[derive(Clone, Debug)]
pub struct EquippableItemListPacket {
    pub packet_length: u16,
    pub inventory_type: u8,
    pub item_information: Vec<EquippableItemInformation>,
}

/// What a [`EquippableItemListPacket`] stands for.
pub struct EquippableItemListPacketModel {
    pub packet_length: u16,
    pub inventory_type: u8,
    pub item_information: Seq<EquippableItemInformationModel>,
}

impl Packet for EquippableItemListPacket {
    type Model = EquippableItemListPacketModel;

    const PACKET_NAME: &'static str = "EquippableItemListPacket";

    const IS_PING: bool = false;

    open spec fn model(&self) -> EquippableItemListPacketModel {
        EquippableItemListPacketModel {
            packet_length: self.packet_length.model(),
            inventory_type: self.inventory_type.model(),
            item_information: models(self.item_information@),
        }
    }

    open spec fn packet_header() -> u16 {
        0x0b39
    }

    #[verifier::opaque]
    open spec fn payload_decoding(data: Seq<u8>, at: int) -> Result<
        (EquippableItemListPacketModel, nat),
        ConversionError,
    > {
        let packet_length = u16::decoding(data, at, None);
        let end = at - 2 + packet_length->Ok_0.0;
        let frame = data.take(end);
        let at_inventory_type = behind(at, packet_length);
        let inventory_type = u8::decoding(frame, at_inventory_type, None);
        let at_item_information = behind(at_inventory_type, inventory_type);
        let item_information = repeated_decoding::<EquippableItemInformation>(
            frame,
            at_item_information,
            whole_count::<EquippableItemInformation>(packet_length->Ok_0.0 - 5)->Some_0,
        );
        let behind_all = behind(at_item_information, item_information);
        if packet_length is Err {
            Err(packet_length->Err_0)
        } else if packet_length->Ok_0.0 < 5 {
            Err(ConversionError::Invalid)
        } else if end > data.len() {
            Err(ConversionError::Incomplete)
        } else if whole_count::<EquippableItemInformation>(packet_length->Ok_0.0 - 5) is None
            || inventory_type is Err
            || item_information is Err
            || behind_all != end {
            Err(ConversionError::Invalid)
        } else {
            Ok(
                (
                    EquippableItemListPacketModel {
                        packet_length: packet_length->Ok_0.0,
                        inventory_type: inventory_type->Ok_0.0,
                        item_information: item_information->Ok_0.0,
                    },
                    (behind_all - at) as nat,
                ),
            )
        }
    }

    open spec fn encodable(value: EquippableItemListPacketModel) -> bool {
        &&& all_encodable::<EquippableItemInformation>(value.item_information)
        &&& value.packet_length == 2 + Self::payload_encoding(value).len()
    }

    #[verifier::opaque]
    open spec fn payload_encoding(value: EquippableItemListPacketModel) -> Seq<u8> {
        u16::encoding(value.packet_length, None)
            + u8::encoding(value.inventory_type, None)
            + repeated_encoding::<EquippableItemInformation>(value.item_information)
    }

    fn header() -> (header: u16) {
        0x0b39
    }

    #[verifier::rlimit(40)]
    fn payload_from_bytes(byte_stream: &mut ByteStream) -> (result: Result<
        Self,
        ConversionError,
    >) {
        proof {
            reveal(<EquippableItemListPacket as Packet>::payload_decoding);
        }
        let mut cursor = byte_stream.fork();
        let packet_length = u16::from_bytes(&mut cursor, None)?;
        if packet_length < 5 {
            return Err(ConversionError::Invalid);
        }
        if cursor.remaining_length() < (packet_length - 4) as usize {
            return Err(ConversionError::Incomplete);
        }
        let end = cursor.get_offset() + (packet_length - 4) as usize;
        let mut frame = cursor.frame(end);
        let inventory_type = match u8::from_bytes(&mut frame, None) {
            Ok(value) => value,
            Err(_) => return Err(ConversionError::Invalid),
        };
        let count = match count_whole::<EquippableItemInformation>((packet_length - 5) as usize) {
            Some(count) => count,
            None => return Err(ConversionError::Invalid),
        };
        let item_information = match decode_repeated::<EquippableItemInformation>(
            &mut frame,
            count,
        ) {
            Ok(value) => value,
            Err(_) => return Err(ConversionError::Invalid),
        };
        if !frame.is_empty() {
            return Err(ConversionError::Invalid);
        }
        byte_stream.follow(&frame);
        Ok(EquippableItemListPacket { packet_length, inventory_type, item_information })
    }

    fn payload_to_bytes(&self) -> (bytes: Vec<u8>) {
        proof {
            reveal(<EquippableItemListPacket as Packet>::payload_encoding);
        }
        let mut bytes = self.packet_length.to_bytes(None);
        let mut piece = self.inventory_type.to_bytes(None);
        bytes.append(&mut piece);
        let mut piece = encode_repeated::<EquippableItemInformation>(&self.item_information);
        bytes.append(&mut piece);
        bytes
    }

    #[verifier::rlimit(40)]
    proof fn lemma_payload_round_trip(
        value: EquippableItemListPacketModel,
        data: Seq<u8>,
        at: int,
    ) {
        reveal(<EquippableItemListPacket as Packet>::payload_decoding);
        reveal(<EquippableItemListPacket as Packet>::payload_encoding);
        let piece_0 = u16::encoding(value.packet_length, None);
        let piece_1 = u8::encoding(value.inventory_type, None);
        let piece_2 = repeated_encoding::<EquippableItemInformation>(value.item_information);
        let front_1 = piece_0;
        let front_2 = front_1 + piece_1;
        lemma_holds_at_split(data, at, front_2, piece_2);
        lemma_holds_at_split(data, at, front_1, piece_1);
        lemma_holds_at_bounds(data, at, Self::payload_encoding(value));
        let end = at - 2 + value.packet_length;
        let frame = data.take(end);
        u16::lemma_round_trip(value.packet_length, None, data, at);
        lemma_holds_at_take(data, end, at + front_1.len(), piece_1);
        u8::lemma_round_trip(value.inventory_type, None, frame, at + front_1.len());
        lemma_holds_at_take(data, end, at + front_2.len(), piece_2);
        lemma_repeated_size::<EquippableItemInformation>(
            frame,
            at + front_2.len(),
            value.item_information,
        );
        assert(EquippableItemInformation::size() == 68);
        lemma_whole_count::<EquippableItemInformation>(value.item_information.len());
        lemma_repeated_round_trip::<EquippableItemInformation>(
            value.item_information,
            frame,
            at + front_2.len(),
        );
    }
}

impl LengthPrefixed for EquippableItemListPacket {
    open spec fn announced_length(value: EquippableItemListPacketModel) -> u16 {
        value.packet_length
    }

    proof fn lemma_exact_length(data: Seq<u8>, at: int) {
        reveal(<EquippableItemListPacket as Packet>::payload_decoding);
    }
}

#[derive(Clone, Copy, Debug)]
pub struct EquippableSwitchItemInformation {
    pub index: ItemIndex,
    pub position: u32,
}

impl ByteConvertable for EquippableSwitchItemInformation {
    type Model = EquippableSwitchItemInformation;

    open spec fn model(&self) -> EquippableSwitchItemInformation {
        *self
    }

    open spec fn accepts(length_hint: Option<usize>) -> bool {
        length_hint is None
    }

    #[verifier::opaque]
    open spec fn decoding(data: Seq<u8>, at: int, length_hint: Option<usize>) -> Result<
        (EquippableSwitchItemInformation, nat),
        ConversionError,
    > {
        let index = ItemIndex::decoding(data, at, None);
        let at_position = behind(at, index);
        let position = u32::decoding(data, at_position, None);
        let behind_all = behind(at_position, position);
        if index is Err {
            Err(index->Err_0)
        } else if position is Err {
            Err(position->Err_0)
        } else {
            Ok(
                (
                    EquippableSwitchItemInformation {
                        index: index->Ok_0.0,
                        position: position->Ok_0.0,
                    },
                    (behind_all - at) as nat,
                ),
            )
        }
    }

    open spec fn encodable(
        value: EquippableSwitchItemInformation,
        length_hint: Option<usize>,
    ) -> bool {
        ItemIndex::encodable(value.index, None)
    }

    #[verifier::opaque]
    open spec fn encoding(
        value: EquippableSwitchItemInformation,
        length_hint: Option<usize>,
    ) -> Seq<u8> {
        ItemIndex::encoding(value.index, None) + u32::encoding(value.position, None)
    }

    fn from_bytes(byte_stream: &mut ByteStream, length_hint: Option<usize>) -> (result: Result<
        Self,
        ConversionError,
    >) {
        proof {
            reveal(<EquippableSwitchItemInformation as ByteConvertable>::decoding);
        }
        let mut cursor = byte_stream.fork();
        let index = ItemIndex::from_bytes(&mut cursor, None)?;
        let position = u32::from_bytes(&mut cursor, None)?;
        byte_stream.follow(&cursor);
        Ok(EquippableSwitchItemInformation { index, position })
    }

    fn to_bytes(&self, length_hint: Option<usize>) -> (bytes: Vec<u8>) {
        proof {
            reveal(<EquippableSwitchItemInformation as ByteConvertable>::encoding);
        }
        let mut bytes = self.index.to_bytes(None);
        let mut piece = self.position.to_bytes(None);
        bytes.append(&mut piece);
        bytes
    }

    proof fn lemma_round_trip(
        value: EquippableSwitchItemInformation,
        length_hint: Option<usize>,
        data: Seq<u8>,
        at: int,
    ) {
        reveal(<EquippableSwitchItemInformation as ByteConvertable>::decoding);
        reveal(<EquippableSwitchItemInformation as ByteConvertable>::encoding);
        let piece_0 = ItemIndex::encoding(value.index, None);
        let piece_1 = u32::encoding(value.position, None);
        let front_1 = piece_0;
        lemma_holds_at_split(data, at, front_1, piece_1);
        ItemIndex::lemma_round_trip(value.index, None, data, at);
        u32::lemma_round_trip(value.position, None, data, at + front_1.len());
    }
}

impl FixedByteSize for EquippableSwitchItemInformation {
    open spec fn size() -> nat {
        6
    }

    fn size_in_bytes() -> (size: usize) {
        6
    }

    proof fn lemma_fixed_size(data: Seq<u8>, at: int, value: EquippableSwitchItemInformation) {
        reveal(<EquippableSwitchItemInformation as ByteConvertable>::decoding);
        reveal(<EquippableSwitchItemInformation as ByteConvertable>::encoding);
        assert(Self::size() == 6);
        ItemIndex::lemma_fixed_size(data, at, value.index);
        u32::lemma_fixed_size(data, at + 2, value.position);
    }
}

#[derive(Clone, Debug)]
pub struct EquippableSwitchItemListPacket {
    pub packet_length: u16,
    pub item_information: Vec<EquippableSwitchItemInformation>,
}

/// What a [`EquippableSwitchItemListPacket`] stands for.
pub struct EquippableSwitchItemListPacketModel {
    pub packet_length: u16,
    pub item_information: Seq<EquippableSwitchItemInformation>,
}

impl Packet for EquippableSwitchItemListPacket {
    type Model = EquippableSwitchItemListPacketModel;

    const PACKET_NAME: &'static str = "EquippableSwitchItemListPacket";

    const IS_PING: bool = false;

    open spec fn model(&self) -> EquippableSwitchItemListPacketModel {
        EquippableSwitchItemListPacketModel {
            packet_length: self.packet_length.model(),
            item_information: models(self.item_information@),
        }
    }

    open spec fn packet_header() -> u16 {
        0x0a9b
    }

    #[verifier::opaque]
    open spec fn payload_decoding(data: Seq<u8>, at: int) -> Result<
        (EquippableSwitchItemListPacketModel, nat),
        ConversionError,
    > {
        let packet_length = u16::decoding(data, at, None);
        let end = at - 2 + packet_length->Ok_0.0;
        let frame = data.take(end);
        let at_item_information = behind(at, packet_length);
        let item_information = repeated_decoding::<EquippableSwitchItemInformation>(
            frame,
            at_item_information,
            whole_count::<EquippableSwitchItemInformation>(packet_length->Ok_0.0 - 4)->Some_0,
        );
        let behind_all = behind(at_item_information, item_information);
        if packet_length is Err {
            Err(packet_length->Err_0)
        } else if packet_length->Ok_0.0 < 4 {
            Err(ConversionError::Invalid)
        } else if end > data.len() {
            Err(ConversionError::Incomplete)
        } else if whole_count::<EquippableSwitchItemInformation>(packet_length->Ok_0.0 - 4) is None
            || item_information is Err
            || behind_all != end {
            Err(ConversionError::Invalid)
        } else {
            Ok(
                (
                    EquippableSwitchItemListPacketModel {
                        packet_length: packet_length->Ok_0.0,
                        item_information: item_information->Ok_0.0,
                    },
                    (behind_all - at) as nat,
                ),
            )
        }
    }

    open spec fn encodable(value: EquippableSwitchItemListPacketModel) -> bool {
        &&& all_encodable::<EquippableSwitchItemInformation>(value.item_information)
        &&& value.packet_length == 2 + Self::payload_encoding(value).len()
    }

    #[verifier::opaque]
    open spec fn payload_encoding(value: EquippableSwitchItemListPacketModel) -> Seq<u8> {
        u16::encoding(value.packet_length, None)
            + repeated_encoding::<EquippableSwitchItemInformation>(value.item_information)
    }

    fn header() -> (header: u16) {
        0x0a9b
    }

    fn payload_from_bytes(byte_stream: &mut ByteStream) -> (result: Result<
        Self,
        ConversionError,
    >) {
        proof {
            reveal(<EquippableSwitchItemListPacket as Packet>::payload_decoding);
        }
        let mut cursor = byte_stream.fork();
        let packet_length = u16::from_bytes(&mut cursor, None)?;
        if packet_length < 4 {
            return Err(ConversionError::Invalid);
        }
        if cursor.remaining_length() < (packet_length - 4) as usize {
            return Err(ConversionError::Incomplete);
        }
        let end = cursor.get_offset() + (packet_length - 4) as usize;
        let mut frame = cursor.frame(end);
        let count = match count_whole::<EquippableSwitchItemInformation>(
            (packet_length - 4) as usize,
        ) {
            Some(count) => count,
            None => return Err(ConversionError::Invalid),
        };
        let item_information = match decode_repeated::<EquippableSwitchItemInformation>(
            &mut frame,
            count,
        ) {
            Ok(value) => value,
            Err(_) => return Err(ConversionError::Invalid),
        };
        if !frame.is_empty() {
            return Err(ConversionError::Invalid);
        }
        byte_stream.follow(&frame);
        Ok(EquippableSwitchItemListPacket { packet_length, item_information })
    }

    fn payload_to_bytes(&self) -> (bytes: Vec<u8>) {
        proof {
            reveal(<EquippableSwitchItemListPacket as Packet>::payload_encoding);
        }
        let mut bytes = self.packet_length.to_bytes(None);
        let mut piece = encode_repeated::<EquippableSwitchItemInformation>(&self.item_information);
        bytes.append(&mut piece);
        bytes
    }

    proof fn lemma_payload_round_trip(
        value: EquippableSwitchItemListPacketModel,
        data: Seq<u8>,
        at: int,
    ) {
        reveal(<EquippableSwitchItemListPacket as Packet>::payload_decoding);
        reveal(<EquippableSwitchItemListPacket as Packet>::payload_encoding);
        let piece_0 = u16::encoding(value.packet_length, None);
        let piece_1 = repeated_encoding::<EquippableSwitchItemInformation>(value.item_information);
        let front_1 = piece_0;
        lemma_holds_at_split(data, at, front_1, piece_1);
        lemma_holds_at_bounds(data, at, Self::payload_encoding(value));
        let end = at - 2 + value.packet_length;
        let frame = data.take(end);
        u16::lemma_round_trip(value.packet_length, None, data, at);
        lemma_holds_at_take(data, end, at + front_1.len(), piece_1);
        lemma_repeated_size::<EquippableSwitchItemInformation>(
            frame,
            at + front_1.len(),
            value.item_information,
        );
        assert(EquippableSwitchItemInformation::size() == 6);
        lemma_whole_count::<EquippableSwitchItemInformation>(value.item_information.len());
        lemma_repeated_round_trip::<EquippableSwitchItemInformation>(
            value.item_information,
            frame,
            at + front_1.len(),
        );
    }
}

impl LengthPrefixed for EquippableSwitchItemListPacket {
    open spec fn announced_length(value: EquippableSwitchItemListPacketModel) -> u16 {
        value.packet_length
    }

    proof fn lemma_exact_length(data: Seq<u8>, at: int) {
        reveal(<EquippableSwitchItemListPacket as Packet>::payload_decoding);
    }
}

#[derive(Clone, Debug)]
pub struct ItemPickupPacket {
    pub index: ItemIndex,
    pub count: u16,
    pub item_id: ItemId,
    pub is_identified: u8,
    pub is_broken: u8,
    pub cards: [u32; 4],
    pub equip_position: EquipPosition,
    pub item_type: u8,
    pub result: u8,
    pub hire_expiration_date: u32,
    pub bind_on_equip_type: u16,
    pub option_data: [ItemOptions; 5],
    pub favorite: u8,
    pub look: u16,
    pub refinement_level: u8,
    pub enchantment_level: u8,
}

/// What a [`ItemPickupPacket`] stands for.
pub struct ItemPickupPacketModel {
    pub index: ItemIndex,
    pub count: u16,
    pub item_id: ItemId,
    pub is_identified: u8,
    pub is_broken: u8,
    pub cards: [u32; 4],
    pub equip_position: EquipPosition,
    pub item_type: u8,
    pub result: u8,
    pub hire_expiration_date: u32,
    pub bind_on_equip_type: u16,
    pub option_data: Seq<ItemOptions>,
    pub favorite: u8,
    pub look: u16,
    pub refinement_level: u8,
    pub enchantment_level: u8,
}

impl ItemPickupPacket {
    /// What the fields from `index` to `item_type` decode to.
    #[verifier::opaque]
    pub open spec fn decoding_part_1(data: Seq<u8>, at: int) -> Result<
        ((ItemIndex, u16, ItemId, u8, u8, [u32; 4], EquipPosition, u8), nat),
        ConversionError,
    > {
        let index = ItemIndex::decoding(data, at, None);
        let at_count = behind(at, index);
        let count = u16::decoding(data, at_count, None);
        let at_item_id = behind(at_count, count);
        let item_id = ItemId::decoding(data, at_item_id, None);
        let at_is_identified = behind(at_item_id, item_id);
        let is_identified = u8::decoding(data, at_is_identified, None);
        let at_is_broken = behind(at_is_identified, is_identified);
        let is_broken = u8::decoding(data, at_is_broken, None);
        let at_cards = behind(at_is_broken, is_broken);
        let cards = <[u32; 4]>::decoding(data, at_cards, None);
        let at_equip_position = behind(at_cards, cards);
        let equip_position = EquipPosition::decoding(data, at_equip_position, None);
        let at_item_type = behind(at_equip_position, equip_position);
        let item_type = u8::decoding(data, at_item_type, None);
        let behind_all = behind(at_item_type, item_type);
        if index is Err {
            Err(index->Err_0)
        } else if count is Err {
            Err(count->Err_0)
        } else if item_id is Err {
            Err(item_id->Err_0)
        } else if is_identified is Err {
            Err(is_identified->Err_0)
        } else if is_broken is Err {
            Err(is_broken->Err_0)
        } else if cards is Err {
            Err(cards->Err_0)
        } else if equip_position is Err {
            Err(equip_position->Err_0)
        } else if item_type is Err {
            Err(item_type->Err_0)
        } else {
            Ok(
                (
                    (
                        index->Ok_0.0,
                        count->Ok_0.0,
                        item_id->Ok_0.0,
                        is_identified->Ok_0.0,
                        is_broken->Ok_0.0,
                        cards->Ok_0.0,
                        equip_position->Ok_0.0,
                        item_type->Ok_0.0,
                    ),
                    (behind_all - at) as nat,
                ),
            )
        }
    }

    /// Whether the fields from `index` to `item_type` have a wire form.
    pub open spec fn encodable_part_1(value: ItemPickupPacketModel) -> bool {
        ItemIndex::encodable(value.index, None)
    }

    /// The wire form of the fields from `index` to `item_type`.
    #[verifier::opaque]
    pub open spec fn encoding_part_1(value: ItemPickupPacketModel) -> Seq<u8> {
        ItemIndex::encoding(value.index, None)
            + u16::encoding(value.count, None)
            + ItemId::encoding(value.item_id, None)
            + u8::encoding(value.is_identified, None)
            + u8::encoding(value.is_broken, None)
            + <[u32; 4]>::encoding(value.cards, None)
            + EquipPosition::encoding(value.equip_position, None)
            + u8::encoding(value.item_type, None)
    }

    fn decode_part_1(byte_stream: &mut ByteStream) -> (result: Result<
        (ItemIndex, u16, ItemId, u8, u8, [u32; 4], EquipPosition, u8),
        ConversionError,
    >)
        ensures
            final(byte_stream).data() == old(byte_stream).data(),
            final(byte_stream).version() == old(byte_stream).version(),
            match Self::decoding_part_1(old(byte_stream).data(), old(byte_stream).offset() as int) {
                Ok((value, length)) => {
                    &&& result is Ok
                    &&& result->Ok_0.0.model() == value.0
                    &&& result->Ok_0.1.model() == value.1
                    &&& result->Ok_0.2.model() == value.2
                    &&& result->Ok_0.3.model() == value.3
                    &&& result->Ok_0.4.model() == value.4
                    &&& result->Ok_0.5.model() == value.5
                    &&& result->Ok_0.6.model() == value.6
                    &&& result->Ok_0.7.model() == value.7
                    &&& final(byte_stream).offset() == old(byte_stream).offset() + length
                },
                Err(error) => {
                    &&& result is Err
                    &&& result->Err_0 == error
                    &&& final(byte_stream).offset() == old(byte_stream).offset()
                },
            },
    {
        proof {
            reveal(ItemPickupPacket::decoding_part_1);
        }
        let mut cursor = byte_stream.fork();
        let index = ItemIndex::from_bytes(&mut cursor, None)?;
        let count = u16::from_bytes(&mut cursor, None)?;
        let item_id = ItemId::from_bytes(&mut cursor, None)?;
        let is_identified = u8::from_bytes(&mut cursor, None)?;
        let is_broken = u8::from_bytes(&mut cursor, None)?;
        let cards = <[u32; 4]>::from_bytes(&mut cursor, None)?;
        let equip_position = EquipPosition::from_bytes(&mut cursor, None)?;
        let item_type = u8::from_bytes(&mut cursor, None)?;
        byte_stream.follow(&cursor);
        Ok((index, count, item_id, is_identified, is_broken, cards, equip_position, item_type))
    }

    fn encode_part_1(&self) -> (bytes: Vec<u8>)
        requires
            Self::encodable_part_1(self.model()),
        ensures
            bytes@ == Self::encoding_part_1(self.model()),
    {
        proof {
            reveal(ItemPickupPacket::encoding_part_1);
        }
        let mut bytes = self.index.to_bytes(None);
        let mut piece = self.count.to_bytes(None);
        bytes.append(&mut piece);
        let mut piece = self.item_id.to_bytes(None);
        bytes.append(&mut piece);
        let mut piece = self.is_identified.to_bytes(None);
        bytes.append(&mut piece);
        let mut piece = self.is_broken.to_bytes(None);
        bytes.append(&mut piece);
        let mut piece = self.cards.to_bytes(None);
        bytes.append(&mut piece);
        let mut piece = self.equip_position.to_bytes(None);
        bytes.append(&mut piece);
        let mut piece = self.item_type.to_bytes(None);
        bytes.append(&mut piece);
        bytes
    }

    #[verifier::rlimit(50)]
    proof fn lemma_round_trip_part_1(value: ItemPickupPacketModel, data: Seq<u8>, at: int)
        requires
            Self::encodable_part_1(value),
            holds_at(data, at, Self::encoding_part_1(value)),
        ensures
            Self::decoding_part_1(data, at) == Ok::<
                ((ItemIndex, u16, ItemId, u8, u8, [u32; 4], EquipPosition, u8), nat),
                ConversionError,
            >(
                (
                    (
                        value.index,
                        value.count,
                        value.item_id,
                        value.is_identified,
                        value.is_broken,
                        value.cards,
                        value.equip_position,
                        value.item_type,
                    ),
                    Self::encoding_part_1(value).len(),
                ),
            ),
    {
        reveal(ItemPickupPacket::decoding_part_1);
        reveal(ItemPickupPacket::encoding_part_1);
        let piece_0 = ItemIndex::encoding(value.index, None);
        let piece_1 = u16::encoding(value.count, None);
        let piece_2 = ItemId::encoding(value.item_id, None);
        let piece_3 = u8::encoding(value.is_identified, None);
        let piece_4 = u8::encoding(value.is_broken, None);
        let piece_5 = <[u32; 4]>::encoding(value.cards, None);
        let piece_6 = EquipPosition::encoding(value.equip_position, None);
        let piece_7 = u8::encoding(value.item_type, None);
        let front_1 = piece_0;
        let front_2 = front_1 + piece_1;
        let front_3 = front_2 + piece_2;
        let front_4 = front_3 + piece_3;
        let front_5 = front_4 + piece_4;
        let front_6 = front_5 + piece_5;
        let front_7 = front_6 + piece_6;
        lemma_holds_at_split(data, at, front_7, piece_7);
        lemma_holds_at_split(data, at, front_6, piece_6);
        lemma_holds_at_split(data, at, front_5, piece_5);
        lemma_holds_at_split(data, at, front_4, piece_4);
        lemma_holds_at_split(data, at, front_3, piece_3);
        lemma_holds_at_split(data, at, front_2, piece_2);
        lemma_holds_at_split(data, at, front_1, piece_1);
        ItemIndex::lemma_round_trip(value.index, None, data, at);
        u16::lemma_round_trip(value.count, None, data, at + front_1.len());
        ItemId::lemma_round_trip(value.item_id, None, data, at + front_2.len());
        u8::lemma_round_trip(value.is_identified, None, data, at + front_3.len());
        u8::lemma_round_trip(value.is_broken, None, data, at + front_4.len());
        <[u32; 4]>::lemma_round_trip(value.cards, None, data, at + front_5.len());
        EquipPosition::lemma_round_trip(value.equip_position, None, data, at + front_6.len());
        u8::lemma_round_trip(value.item_type, None, data, at + front_7.len());
    }

    proof fn lemma_size_part_1(data: Seq<u8>, at: int, value: ItemPickupPacketModel)
        ensures
            Self::decoding_part_1(data, at) matches Ok((_, length)) ==> length == 31,
            Self::encodable_part_1(value) ==> Self::encoding_part_1(value).len() == 31,
    {
        reveal(ItemPickupPacket::decoding_part_1);
        reveal(ItemPickupPacket::encoding_part_1);
        ItemIndex::lemma_fixed_size(data, at, value.index);
        u16::lemma_fixed_size(data, at + 2, value.count);
        ItemId::lemma_fixed_size(data, at + 4, value.item_id);
        u8::lemma_fixed_size(data, at + 8, value.is_identified);
        u8::lemma_fixed_size(data, at + 9, value.is_broken);
        lemma_repeated_size::<u32>(data, at + 10, value.cards@);
        EquipPosition::lemma_fixed_size(data, at + 26, value.equip_position);
        u8::lemma_fixed_size(data, at + 30, value.item_type);
    }

    /// What the fields from `result` to `bind_on_equip_type` decode to.
    #[verifier::opaque]
    pub open spec fn decoding_part_2(data: Seq<u8>, at: int) -> Result<
        ((u8, u32, u16), nat),
        ConversionError,
    > {
        let result_field = u8::decoding(data, at, None);
        let at_hire_expiration_date = behind(at, result_field);
        let hire_expiration_date = u32::decoding(data, at_hire_expiration_date, None);
        let at_bind_on_equip_type = behind(at_hire_expiration_date, hire_expiration_date);
        let bind_on_equip_type = u16::decoding(data, at_bind_on_equip_type, None);
        let behind_all = behind(at_bind_on_equip_type, bind_on_equip_type);
        if result_field is Err {
            Err(result_field->Err_0)
        } else if hire_expiration_date is Err {
            Err(hire_expiration_date->Err_0)
        } else if bind_on_equip_type is Err {
            Err(bind_on_equip_type->Err_0)
        } else {
            Ok(
                (
                    (
                        result_field->Ok_0.0,
                        hire_expiration_date->Ok_0.0,
                        bind_on_equip_type->Ok_0.0,
                    ),
                    (behind_all - at) as nat,
                ),
            )
        }
    }

    /// The wire form of the fields from `result` to `bind_on_equip_type`.
    #[verifier::opaque]
    pub open spec fn encoding_part_2(value: ItemPickupPacketModel) -> Seq<u8> {
        u8::encoding(value.result, None)
            + u32::encoding(value.hire_expiration_date, None)
            + u16::encoding(value.bind_on_equip_type, None)
    }

    fn decode_part_2(byte_stream: &mut ByteStream) -> (result: Result<
        (u8, u32, u16),
        ConversionError,
    >)
        ensures
            final(byte_stream).data() == old(byte_stream).data(),
            final(byte_stream).version() == old(byte_stream).version(),
            match Self::decoding_part_2(old(byte_stream).data(), old(byte_stream).offset() as int) {
                Ok((value, length)) => {
                    &&& result is Ok
                    &&& result->Ok_0.0.model() == value.0
                    &&& result->Ok_0.1.model() == value.1
                    &&& result->Ok_0.2.model() == value.2
                    &&& final(byte_stream).offset() == old(byte_stream).offset() + length
                },
                Err(error) => {
                    &&& result is Err
                    &&& result->Err_0 == error
                    &&& final(byte_stream).offset() == old(byte_stream).offset()
                },
            },
    {
        proof {
            reveal(ItemPickupPacket::decoding_part_2);
        }
        let mut cursor = byte_stream.fork();
        let result_field = u8::from_bytes(&mut cursor, None)?;
        let hire_expiration_date = u32::from_bytes(&mut cursor, None)?;
        let bind_on_equip_type = u16::from_bytes(&mut cursor, None)?;
        byte_stream.follow(&cursor);
        Ok((result_field, hire_expiration_date, bind_on_equip_type))
    }

    fn encode_part_2(&self) -> (bytes: Vec<u8>)
        ensures
            bytes@ == Self::encoding_part_2(self.model()),
    {
        proof {
            reveal(ItemPickupPacket::encoding_part_2);
        }
        let mut bytes = self.result.to_bytes(None);
        let mut piece = self.hire_expiration_date.to_bytes(None);
        bytes.append(&mut piece);
        let mut piece = self.bind_on_equip_type.to_bytes(None);
        bytes.append(&mut piece);
        bytes
    }

    #[verifier::rlimit(50)]
    proof fn lemma_round_trip_part_2(value: ItemPickupPacketModel, data: Seq<u8>, at: int)
        requires
            holds_at(data, at, Self::encoding_part_2(value)),
        ensures
            Self::decoding_part_2(data, at) == Ok::<((u8, u32, u16), nat), ConversionError>(
                (
                    (
                        value.result,
                        value.hire_expiration_date,
                        value.bind_on_equip_type,
                    ),
                    Self::encoding_part_2(value).len(),
                ),
            ),
    {
        reveal(ItemPickupPacket::decoding_part_2);
        reveal(ItemPickupPacket::encoding_part_2);
        let piece_0 = u8::encoding(value.result, None);
        let piece_1 = u32::encoding(value.hire_expiration_date, None);
        let piece_2 = u16::encoding(value.bind_on_equip_type, None);
        let front_1 = piece_0;
        let front_2 = front_1 + piece_1;
        lemma_holds_at_split(data, at, front_2, piece_2);
        lemma_holds_at_split(data, at, front_1, piece_1);
        u8::lemma_round_trip(value.result, None, data, at);
        u32::lemma_round_trip(value.hire_expiration_date, None, data, at + front_1.len());
        u16::lemma_round_trip(value.bind_on_equip_type, None, data, at + front_2.len());
    }

    proof fn lemma_size_part_2(data: Seq<u8>, at: int, value: ItemPickupPacketModel)
        ensures
            Self::decoding_part_2(data, at) matches Ok((_, length)) ==> length == 7,
            Self::encoding_part_2(value).len() == 7,
    {
        reveal(ItemPickupPacket::decoding_part_2);
        reveal(ItemPickupPacket::encoding_part_2);
        u8::lemma_fixed_size(data, at, value.result);
        u32::lemma_fixed_size(data, at + 1, value.hire_expiration_date);
        u16::lemma_fixed_size(data, at + 5, value.bind_on_equip_type);
    }

    /// What the fields from `favorite` to `enchantment_level` decode to.
    #[verifier::opaque]
    pub open spec fn decoding_part_3(data: Seq<u8>, at: int) -> Result<
        ((u8, u16, u8, u8), nat),
        ConversionError,
    > {
        let favorite = u8::decoding(data, at, None);
        let at_look = behind(at, favorite);
        let look = u16::decoding(data, at_look, None);
        let at_refinement_level = behind(at_look, look);
        let refinement_level = u8::decoding(data, at_refinement_level, None);
        let at_enchantment_level = behind(at_refinement_level, refinement_level);
        let enchantment_level = u8::decoding(data, at_enchantment_level, None);
        let behind_all = behind(at_enchantment_level, enchantment_level);
        if favorite is Err {
            Err(favorite->Err_0)
        } else if look is Err {
            Err(look->Err_0)
        } else if refinement_level is Err {
            Err(refinement_level->Err_0)
        } else if enchantment_level is Err {
            Err(enchantment_level->Err_0)
        } else {
            Ok(
                (
                    (
                        favorite->Ok_0.0,
                        look->Ok_0.0,
                        refinement_level->Ok_0.0,
                        enchantment_level->Ok_0.0,
                    ),
                    (behind_all - at) as nat,
                ),
            )
        }
    }

    /// The wire form of the fields from `favorite` to `enchantment_level`.
    #[verifier::opaque]
    pub open spec fn encoding_part_3(value: ItemPickupPacketModel) -> Seq<u8> {
        u8::encoding(value.favorite, None)
            + u16::encoding(value.look, None)
            + u8::encoding(value.refinement_level, None)
            + u8::encoding(value.enchantment_level, None)
    }

    fn decode_part_3(byte_stream: &mut ByteStream) -> (result: Result<
        (u8, u16, u8, u8),
        ConversionError,
    >)
        ensures
            final(byte_stream).data() == old(byte_stream).data(),
            final(byte_stream).version() == old(byte_stream).version(),
            match Self::decoding_part_3(old(byte_stream).data(), old(byte_stream).offset() as int) {
                Ok((value, length)) => {
                    &&& result is Ok
                    &&& result->Ok_0.0.model() == value.0
                    &&& result->Ok_0.1.model() == value.1
                    &&& result->Ok_0.2.model() == value.2
                    &&& result->Ok_0.3.model() == value.3
                    &&& final(byte_stream).offset() == old(byte_stream).offset() + length
                },
                Err(error) => {
                    &&& result is Err
                    &&& result->Err_0 == error
                    &&& final(byte_stream).offset() == old(byte_stream).offset()
                },
            },
    {
        proof {
            reveal(ItemPickupPacket::decoding_part_3);
        }
        let mut cursor = byte_stream.fork();
        let favorite = u8::from_bytes(&mut cursor, None)?;
        let look = u16::from_bytes(&mut cursor, None)?;
        let refinement_level = u8::from_bytes(&mut cursor, None)?;
        let enchantment_level = u8::from_bytes(&mut cursor, None)?;
        byte_stream.follow(&cursor);
        Ok((favorite, look, refinement_level, enchantment_level))
    }

    fn encode_part_3(&self) -> (bytes: Vec<u8>)
        ensures
            bytes@ == Self::encoding_part_3(self.model()),
    {
        proof {
            reveal(ItemPickupPacket::encoding_part_3);
        }
        let mut bytes = self.favorite.to_bytes(None);
        let mut piece = self.look.to_bytes(None);
        bytes.append(&mut piece);
        let mut piece = self.refinement_level.to_bytes(None);
        bytes.append(&mut piece);
        let mut piece = self.enchantment_level.to_bytes(None);
        bytes.append(&mut piece);
        bytes
    }

    #[verifier::rlimit(50)]
    proof fn lemma_round_trip_part_3(value: ItemPickupPacketModel, data: Seq<u8>, at: int)
        requires
            holds_at(data, at, Self::encoding_part_3(value)),
        ensures
            Self::decoding_part_3(data, at) == Ok::<((u8, u16, u8, u8), nat), ConversionError>(
                (
                    (
                        value.favorite,
                        value.look,
                        value.refinement_level,
                        value.enchantment_level,
                    ),
                    Self::encoding_part_3(value).len(),
                ),
            ),
    {
        reveal(ItemPickupPacket::decoding_part_3);
        reveal(ItemPickupPacket::encoding_part_3);
        let piece_0 = u8::encoding(value.favorite, None);
        let piece_1 = u16::encoding(value.look, None);
        let piece_2 = u8::encoding(value.refinement_level, None);
        let piece_3 = u8::encoding(value.enchantment_level, None);
        let front_1 = piece_0;
        let front_2 = front_1 + piece_1;
        let front_3 = front_2 + piece_2;
        lemma_holds_at_split(data, at, front_3, piece_3);
        lemma_holds_at_split(data, at, front_2, piece_2);
        lemma_holds_at_split(data, at, front_1, piece_1);
        u8::lemma_round_trip(value.favorite, None, data, at);
        u16::lemma_round_trip(value.look, None, data, at + front_1.len());
        u8::lemma_round_trip(value.refinement_level, None, data, at + front_2.len());
        u8::lemma_round_trip(value.enchantment_level, None, data, at + front_3.len());
    }

    proof fn lemma_size_part_3(data: Seq<u8>, at: int, value: ItemPickupPacketModel)
        ensures
            Self::decoding_part_3(data, at) matches Ok((_, length)) ==> length == 5,
            Self::encoding_part_3(value).len() == 5,
    {
        reveal(ItemPickupPacket::decoding_part_3);
        reveal(ItemPickupPacket::encoding_part_3);
        u8::lemma_fixed_size(data, at, value.favorite);
        u16::lemma_fixed_size(data, at + 1, value.look);
        u8::lemma_fixed_size(data, at + 3, value.refinement_level);
        u8::lemma_fixed_size(data, at + 4, value.enchantment_level);
    }
}

impl Packet for ItemPickupPacket {
    type Model = ItemPickupPacketModel;

    const PACKET_NAME: &'static str = "ItemPickupPacket";

    const IS_PING: bool = false;

    open spec fn model(&self) -> ItemPickupPacketModel {
        ItemPickupPacketModel {
            index: self.index.model(),
            count: self.count.model(),
            item_id: self.item_id.model(),
            is_identified: self.is_identified.model(),
            is_broken: self.is_broken.model(),
            cards: self.cards.model(),
            equip_position: self.equip_position.model(),
            item_type: self.item_type.model(),
            result: self.result.model(),
            hire_expiration_date: self.hire_expiration_date.model(),
            bind_on_equip_type: self.bind_on_equip_type.model(),
            option_data: models(self.option_data@),
            favorite: self.favorite.model(),
            look: self.look.model(),
            refinement_level: self.refinement_level.model(),
            enchantment_level: self.enchantment_level.model(),
        }
    }

    open spec fn packet_header() -> u16 {
        0x0b41
    }

    #[verifier::opaque]
    open spec fn payload_decoding(data: Seq<u8>, at: int) -> Result<
        (ItemPickupPacketModel, nat),
        ConversionError,
    > {
        let part_1 = Self::decoding_part_1(data, at);
        let at_part_2 = behind(at, part_1);
        let part_2 = Self::decoding_part_2(data, at_part_2);
        let at_option_data = behind(at_part_2, part_2);
        let option_data = repeated_decoding::<ItemOptions>(data, at_option_data, 5);
        let at_part_3 = behind(at_option_data, option_data);
        let part_3 = Self::decoding_part_3(data, at_part_3);
        let behind_all = behind(at_part_3, part_3);
        if part_1 is Err {
            Err(part_1->Err_0)
        } else if part_2 is Err {
            Err(part_2->Err_0)
        } else if option_data is Err {
            Err(option_data->Err_0)
        } else if part_3 is Err {
            Err(part_3->Err_0)
        } else {
            Ok(
                (
                    ItemPickupPacketModel {
                        index: part_1->Ok_0.0.0,
                        count: part_1->Ok_0.0.1,
                        item_id: part_1->Ok_0.0.2,
                        is_identified: part_1->Ok_0.0.3,
                        is_broken: part_1->Ok_0.0.4,
                        cards: part_1->Ok_0.0.5,
                        equip_position: part_1->Ok_0.0.6,
                        item_type: part_1->Ok_0.0.7,
                        result: part_2->Ok_0.0.0,
                        hire_expiration_date: part_2->Ok_0.0.1,
                        bind_on_equip_type: part_2->Ok_0.0.2,
                        option_data: option_data->Ok_0.0,
                        favorite: part_3->Ok_0.0.0,
                        look: part_3->Ok_0.0.1,
                        refinement_level: part_3->Ok_0.0.2,
                        enchantment_level: part_3->Ok_0.0.3,
                    },
                    (behind_all - at) as nat,
                ),
            )
        }
    }

    open spec fn encodable(value: ItemPickupPacketModel) -> bool {
        &&& Self::encodable_part_1(value)
        &&& all_encodable::<ItemOptions>(value.option_data)
        &&& value.option_data.len() == 5
    }

    #[verifier::opaque]
    open spec fn payload_encoding(value: ItemPickupPacketModel) -> Seq<u8> {
        Self::encoding_part_1(value)
            + Self::encoding_part_2(value)
            + repeated_encoding::<ItemOptions>(value.option_data)
            + Self::encoding_part_3(value)
    }

    fn header() -> (header: u16) {
        0x0b41
    }

    fn payload_from_bytes(byte_stream: &mut ByteStream) -> (result: Result<
        Self,
        ConversionError,
    >) {
        proof {
            reveal(<ItemPickupPacket as Packet>::payload_decoding);
        }
        let mut cursor = byte_stream.fork();
        let (
            index,
            count,
            item_id,
            is_identified,
            is_broken,
            cards,
            equip_position,
            item_type,
        ) = Self::decode_part_1(
            &mut cursor,
        )?;
        let (result_field, hire_expiration_date, bind_on_equip_type) = Self::decode_part_2(
            &mut cursor,
        )?;
        let option_data = decode_fixed::<ItemOptions, 5>(&mut cursor)?;
        let (favorite, look, refinement_level, enchantment_level) = Self::decode_part_3(
            &mut cursor,
        )?;
        byte_stream.follow(&cursor);
        Ok(ItemPickupPacket {
            index,
            count,
            item_id,
            is_identified,
            is_broken,
            cards,
            equip_position,
            item_type,
            result: result_field,
            hire_expiration_date,
            bind_on_equip_type,
            option_data,
            favorite,
            look,
            refinement_level,
            enchantment_level,
        })
    }

    fn payload_to_bytes(&self) -> (bytes: Vec<u8>) {
        proof {
            reveal(<ItemPickupPacket as Packet>::payload_encoding);
        }
        let mut bytes = self.encode_part_1();
        let mut piece = self.encode_part_2();
        bytes.append(&mut piece);
        let mut piece = encode_fixed::<ItemOptions, 5>(&self.option_data);
        bytes.append(&mut piece);
        let mut piece = self.encode_part_3();
        bytes.append(&mut piece);
        bytes
    }

    proof fn lemma_payload_round_trip(value: ItemPickupPacketModel, data: Seq<u8>, at: int) {
        reveal(<ItemPickupPacket as Packet>::payload_decoding);
        reveal(<ItemPickupPacket as Packet>::payload_encoding);
        let piece_0 = Self::encoding_part_1(value);
        let piece_1 = Self::encoding_part_2(value);
        let piece_2 = repeated_encoding::<ItemOptions>(value.option_data);
        let piece_3 = Self::encoding_part_3(value);
        let front_1 = piece_0;
        let front_2 = front_1 + piece_1;
        let front_3 = front_2 + piece_2;
        lemma_holds_at_split(data, at, front_3, piece_3);
        lemma_holds_at_split(data, at, front_2, piece_2);
        lemma_holds_at_split(data, at, front_1, piece_1);
        Self::lemma_round_trip_part_1(value, data, at);
        Self::lemma_round_trip_part_2(value, data, at + front_1.len());
        lemma_repeated_round_trip::<ItemOptions>(value.option_data, data, at + front_2.len());
        Self::lemma_round_trip_part_3(value, data, at + front_3.len());
    }
}

#[derive(Clone, Copy, Debug, PartialEq, Eq, Structural)]
pub enum RemoveItemReason {
    Normal,
    ItemUsedForSkill,
    RefinsFailed,
    MaterialChanged,
    MovedToStorage,
    MovedToCart,
    ItemSold,
    ConsumedByFourSpiritAnalysis,
}

impl RemoveItemReason {
    /// The number that stands for a variant on the wire.
    pub open spec fn code(self) -> u16 {
        match self {
            RemoveItemReason::Normal => 0,
            RemoveItemReason::ItemUsedForSkill => 1,
            RemoveItemReason::RefinsFailed => 2,
            RemoveItemReason::MaterialChanged => 3,
            RemoveItemReason::MovedToStorage => 4,
            RemoveItemReason::MovedToCart => 5,
            RemoveItemReason::ItemSold => 6,
            RemoveItemReason::ConsumedByFourSpiritAnalysis => 7,
        }
    }

    /// The variant that a number stands for.
    pub open spec fn of_code(code: u16) -> Option<RemoveItemReason> {
        if code == 0 {
            Some(RemoveItemReason::Normal)
        } else if code == 1 {
            Some(RemoveItemReason::ItemUsedForSkill)
        } else if code == 2 {
            Some(RemoveItemReason::RefinsFailed)
        } else if code == 3 {
            Some(RemoveItemReason::MaterialChanged)
        } else if code == 4 {
            Some(RemoveItemReason::MovedToStorage)
        } else if code == 5 {
            Some(RemoveItemReason::MovedToCart)
        } else if code == 6 {
            Some(RemoveItemReason::ItemSold)
        } else if code == 7 {
            Some(RemoveItemReason::ConsumedByFourSpiritAnalysis)
        } else {
            None
        }
    }
}

impl ByteConvertable for RemoveItemReason {
    type Model = RemoveItemReason;

    open spec fn model(&self) -> RemoveItemReason {
        *self
    }

    open spec fn accepts(length_hint: Option<usize>) -> bool {
        length_hint is None
    }

    open spec fn decoding(data: Seq<u8>, at: int, length_hint: Option<usize>) -> Result<
        (RemoveItemReason, nat),
        ConversionError,
    > {
        match u16::decoding(data, at, None) {
            Ok((code, length)) => match RemoveItemReason::of_code(code) {
                Some(value) => Ok((value, length)),
                None => Err(ConversionError::Invalid),
            },
            Err(error) => Err(error),
        }
    }

    open spec fn encodable(value: RemoveItemReason, length_hint: Option<usize>) -> bool {
        true
    }

    open spec fn encoding(value: RemoveItemReason, length_hint: Option<usize>) -> Seq<u8> {
        u16::encoding(value.code(), None)
    }

    fn from_bytes(byte_stream: &mut ByteStream, length_hint: Option<usize>) -> (result: Result<
        Self,
        ConversionError,
    >) {
        let mut cursor = byte_stream.fork();
        let code = u16::from_bytes(&mut cursor, None)?;
        let value = match code {
            0 => RemoveItemReason::Normal,
            1 => RemoveItemReason::ItemUsedForSkill,
            2 => RemoveItemReason::RefinsFailed,
            3 => RemoveItemReason::MaterialChanged,
            4 => RemoveItemReason::MovedToStorage,
            5 => RemoveItemReason::MovedToCart,
            6 => RemoveItemReason::ItemSold,
            7 => RemoveItemReason::ConsumedByFourSpiritAnalysis,
            _ => return Err(ConversionError::Invalid),
        };
        byte_stream.follow(&cursor);
        Ok(value)
    }

    fn to_bytes(&self, length_hint: Option<usize>) -> (bytes: Vec<u8>) {
        let code: u16 = match self {
            RemoveItemReason::Normal => 0,
            RemoveItemReason::ItemUsedForSkill => 1,
            RemoveItemReason::RefinsFailed => 2,
            RemoveItemReason::MaterialChanged => 3,
            RemoveItemReason::MovedToStorage => 4,
            RemoveItemReason::MovedToCart => 5,
            RemoveItemReason::ItemSold => 6,
            RemoveItemReason::ConsumedByFourSpiritAnalysis => 7,
        };
        code.to_bytes(None)
    }

    proof fn lemma_round_trip(
        value: RemoveItemReason,
        length_hint: Option<usize>,
        data: Seq<u8>,
        at: int,
    ) {
        u16::lemma_round_trip(value.code(), None, data, at);
    }
}

impl FixedByteSize for RemoveItemReason {
    open spec fn size() -> nat {
        2
    }

    fn size_in_bytes() -> (size: usize) {
        2
    }

    proof fn lemma_fixed_size(data: Seq<u8>, at: int, value: RemoveItemReason) {
        assert(Self::size() == 2);
    }
}

#[derive(Clone, Copy, Debug)]
pub struct RemoveItemFromInventoryPacket {
    pub remove_reason: RemoveItemReason,
    pub index: u16,
    pub amount: u16,
}

impl Packet for RemoveItemFromInventoryPacket {
    type Model = RemoveItemFromInventoryPacket;

    const PACKET_NAME: &'static str = "RemoveItemFromInventoryPacket";

    const IS_PING: bool = false;

    open spec fn model(&self) -> RemoveItemFromInventoryPacket {
        *self
    }

    open spec fn packet_header() -> u16 {
        0x07fa
    }

    #[verifier::opaque]
    open spec fn payload_decoding(data: Seq<u8>, at: int) -> Result<
        (RemoveItemFromInventoryPacket, nat),
        ConversionError,
    > {
        let remove_reason = RemoveItemReason::decoding(data, at, None);
        let at_index = behind(at, remove_reason);
        let index = u16::decoding(data, at_index, None);
        let at_amount = behind(at_index, index);
        let amount = u16::decoding(data, at_amount, None);
        let behind_all = behind(at_amount, amount);
        if remove_reason is Err {
            Err(remove_reason->Err_0)
        } else if index is Err {
            Err(index->Err_0)
        } else if amount is Err {
            Err(amount->Err_0)
        } else {
            Ok(
                (
                    RemoveItemFromInventoryPacket {
                        remove_reason: remove_reason->Ok_0.0,
                        index: index->Ok_0.0,
                        amount: amount->Ok_0.0,
                    },
                    (behind_all - at) as nat,
                ),
            )
        }
    }

    open spec fn encodable(value: RemoveItemFromInventoryPacket) -> bool {
        true
    }

    #[verifier::opaque]
    open spec fn payload_encoding(value: RemoveItemFromInventoryPacket) -> Seq<u8> {
        RemoveItemReason::encoding(value.remove_reason, None)
            + u16::encoding(value.index, None)
            + u16::encoding(value.amount, None)
    }

    fn header() -> (header: u16) {
        0x07fa
    }

    fn payload_from_bytes(byte_stream: &mut ByteStream) -> (result: Result<
        Self,
        ConversionError,
    >) {
        proof {
            reveal(<RemoveItemFromInventoryPacket as Packet>::payload_decoding);
        }
        let mut cursor = byte_stream.fork();
        let remove_reason = RemoveItemReason::from_bytes(&mut cursor, None)?;
        let index = u16::from_bytes(&mut cursor, None)?;
        let amount = u16::from_bytes(&mut cursor, None)?;
        byte_stream.follow(&cursor);
        Ok(RemoveItemFromInventoryPacket { remove_reason, index, amount })
    }

    fn payload_to_bytes(&self) -> (bytes: Vec<u8>) {
        proof {
            reveal(<RemoveItemFromInventoryPacket as Packet>::payload_encoding);
        }
        let mut bytes = self.remove_reason.to_bytes(None);
        let mut piece = self.index.to_bytes(None);
        bytes.append(&mut piece);
        let mut piece = self.amount.to_bytes(None);
        bytes.append(&mut piece);
        bytes
    }

    proof fn lemma_payload_round_trip(
        value: RemoveItemFromInventoryPacket,
        data: Seq<u8>,
        at: int,
    ) {
        reveal(<RemoveItemFromInventoryPacket as Packet>::payload_decoding);
        reveal(<RemoveItemFromInventoryPacket as Packet>::payload_encoding);
        let piece_0 = RemoveItemReason::encoding(value.remove_reason, None);
        let piece_1 = u16::encoding(value.index, None);
        let piece_2 = u16::encoding(value.amount, None);
        let front_1 = piece_0;
        let front_2 = front_1 + piece_1;
        lemma_holds_at_split(data, at, front_2, piece_2);
        lemma_holds_at_split(data, at, front_1, piece_1);
        RemoveItemReason::lemma_round_trip(value.remove_reason, None, data, at);
        u16::lemma_round_trip(value.index, None, data, at + front_1.len());
        u16::lemma_round_trip(value.amount, None, data, at + front_2.len());
    }
}

#[derive(Clone, Copy, Debug)]
pub struct RequestEquipItemPacket {
    pub inventory_index: ItemIndex,
    pub equip_position: EquipPosition,
}

impl RequestEquipItemPacket {
    /// The packet that [`new`](Self::new) makes.
    pub open spec fn made(
        inventory_index: ItemIndex,
        equip_position: EquipPosition,
    ) -> RequestEquipItemPacket {
        RequestEquipItemPacket { inventory_index, equip_position }
    }

    pub fn new(inventory_index: ItemIndex, equip_position: EquipPosition) -> (packet: Self)
        ensures
            packet.model() == Self::made(inventory_index.model(), equip_position.model()),
    {
        let packet = RequestEquipItemPacket { inventory_index, equip_position };
        packet
    }
}

impl Packet for RequestEquipItemPacket {
    type Model = RequestEquipItemPacket;

    const PACKET_NAME: &'static str = "RequestEquipItemPacket";

    const IS_PING: bool = false;

    open spec fn model(&self) -> RequestEquipItemPacket {
        *self
    }

    open spec fn packet_header() -> u16 {
        0x0998
    }

    #[verifier::opaque]
    open spec fn payload_decoding(data: Seq<u8>, at: int) -> Result<
        (RequestEquipItemPacket, nat),
        ConversionError,
    > {
        let inventory_index = ItemIndex::decoding(data, at, None);
        let at_equip_position = behind(at, inventory_index);
        let equip_position = EquipPosition::decoding(data, at_equip_position, None);
        let behind_all = behind(at_equip_position, equip_position);
        if inventory_index is Err {
            Err(inventory_index->Err_0)
        } else if equip_position is Err {
            Err(equip_position->Err_0)
        } else {
            Ok(
                (
                    RequestEquipItemPacket {
                        inventory_index: inventory_index->Ok_0.0,
                        equip_position: equip_position->Ok_0.0,
                    },
                    (behind_all - at) as nat,
                ),
            )
        }
    }

    open spec fn encodable(value: RequestEquipItemPacket) -> bool {
        ItemIndex::encodable(value.inventory_index, None)
    }

    #[verifier::opaque]
    open spec fn payload_encoding(value: RequestEquipItemPacket) -> Seq<u8> {
        ItemIndex::encoding(value.inventory_index, None)
            + EquipPosition::encoding(value.equip_position, None)
    }

    fn header() -> (header: u16) {
        0x0998
    }

    fn payload_from_bytes(byte_stream: &mut ByteStream) -> (result: Result<
        Self,
        ConversionError,
    >) {
        proof {
            reveal(<RequestEquipItemPacket as Packet>::payload_decoding);
        }
        let mut cursor = byte_stream.fork();
        let inventory_index = ItemIndex::from_bytes(&mut cursor, None)?;
        let equip_position = EquipPosition::from_bytes(&mut cursor, None)?;
        byte_stream.follow(&cursor);
        Ok(RequestEquipItemPacket { inventory_index, equip_position })
    }

    fn payload_to_bytes(&self) -> (bytes: Vec<u8>) {
        proof {
            reveal(<RequestEquipItemPacket as Packet>::payload_encoding);
        }
        let mut bytes = self.inventory_index.to_bytes(None);
        let mut piece = self.equip_position.to_bytes(None);
        bytes.append(&mut piece);
        bytes
    }

    proof fn lemma_payload_round_trip(value: RequestEquipItemPacket, data: Seq<u8>, at: int) {
        reveal(<RequestEquipItemPacket as Packet>::payload_decoding);
        reveal(<RequestEquipItemPacket as Packet>::payload_encoding);
        let piece_0 = ItemIndex::encoding(value.inventory_index, None);
        let piece_1 = EquipPosition::encoding(value.equip_position, None);
        let front_1 = piece_0;
        lemma_holds_at_split(data, at, front_1, piece_1);
        ItemIndex::lemma_round_trip(value.inventory_index, None, data, at);
        EquipPosition::lemma_round_trip(value.equip_position, None, data, at + front_1.len());
    }
}

#[derive(Clone, Copy, Debug, PartialEq, Eq, Structural)]
pub enum RequestEquipItemStatus {
    Success,
    Failed,
    FailedDueToLevelRequirement,
}

impl RequestEquipItemStatus {
    /// The number that stands for a variant on the wire.
    pub open spec fn code(self) -> u8 {
        match self {
            RequestEquipItemStatus::Success => 0,
            RequestEquipItemStatus::Failed => 1,
            RequestEquipItemStatus::FailedDueToLevelRequirement => 2,
        }
    }

    /// The variant that a number stands for.
    pub open spec fn of_code(code: u8) -> Option<RequestEquipItemStatus> {
        if code == 0 {
            Some(RequestEquipItemStatus::Success)
        } else if code == 1 {
            Some(RequestEquipItemStatus::Failed)
        } else if code == 2 {
            Some(RequestEquipItemStatus::FailedDueToLevelRequirement)
        } else {
            None
        }
    }
}

impl ByteConvertable for RequestEquipItemStatus {
    type Model = RequestEquipItemStatus;

    open spec fn model(&self) -> RequestEquipItemStatus {
        *self
    }

    open spec fn accepts(length_hint: Option<usize>) -> bool {
        length_hint is None
    }

    open spec fn decoding(data: Seq<u8>, at: int, length_hint: Option<usize>) -> Result<
        (RequestEquipItemStatus, nat),
        ConversionError,
    > {
        match u8::decoding(data, at, None) {
            Ok((code, length)) => match RequestEquipItemStatus::of_code(code) {
                Some(value) => Ok((value, length)),
                None => Err(ConversionError::Invalid),
            },
            Err(error) => Err(error),
        }
    }

    open spec fn encodable(value: RequestEquipItemStatus, length_hint: Option<usize>) -> bool {
        true
    }

    open spec fn encoding(value: RequestEquipItemStatus, length_hint: Option<usize>) -> Seq<u8> {
        u8::encoding(value.code(), None)
    }

    fn from_bytes(byte_stream: &mut ByteStream, length_hint: Option<usize>) -> (result: Result<
        Self,
        ConversionError,
    >) {
        let mut cursor = byte_stream.fork();
        let code = u8::from_bytes(&mut cursor, None)?;
        let value = match code {
            0 => RequestEquipItemStatus::Success,
            1 => RequestEquipItemStatus::Failed,
            2 => RequestEquipItemStatus::FailedDueToLevelRequirement,
            _ => return Err(ConversionError::Invalid),
        };
        byte_stream.follow(&cursor);
        Ok(value)
    }

    fn to_bytes(&self, length_hint: Option<usize>) -> (bytes: Vec<u8>) {
        let code: u8 = match self {
            RequestEquipItemStatus::Success => 0,
            RequestEquipItemStatus::Failed => 1,
            RequestEquipItemStatus::FailedDueToLevelRequirement => 2,
        };
        code.to_bytes(None)
    }

    proof fn lemma_round_trip(
        value: RequestEquipItemStatus,
        length_hint: Option<usize>,
        data: Seq<u8>,
        at: int,
    ) {
        u8::lemma_round_trip(value.code(), None, data, at);
    }
}

impl FixedByteSize for RequestEquipItemStatus {
    open spec fn size() -> nat {
        1
    }

    fn size_in_bytes() -> (size: usize) {
        1
    }

    proof fn lemma_fixed_size(data: Seq<u8>, at: int, value: RequestEquipItemStatus) {
        assert(Self::size() == 1);
    }
}

#[derive(Clone, Copy, Debug)]
pub struct RequestEquipItemStatusPacket {
    pub inventory_index: ItemIndex,
    pub equipped_position: EquipPosition,
    pub view_id: u16,
    pub result: RequestEquipItemStatus,
}

impl Packet for RequestEquipItemStatusPacket {
    type Model = RequestEquipItemStatusPacket;

    const PACKET_NAME: &'static str = "RequestEquipItemStatusPacket";

    const IS_PING: bool = false;

    open spec fn model(&self) -> RequestEquipItemStatusPacket {
        *self
    }

    open spec fn packet_header() -> u16 {
        0x0999
    }

    #[verifier::opaque]
    open spec fn payload_decoding(data: Seq<u8>, at: int) -> Result<
        (RequestEquipItemStatusPacket, nat),
        ConversionError,
    > {
        let inventory_index = ItemIndex::decoding(data, at, None);
        let at_equipped_position = behind(at, inventory_index);
        let equipped_position = EquipPosition::decoding(data, at_equipped_position, None);
        let at_view_id = behind(at_equipped_position, equipped_position);
        let view_id = u16::decoding(data, at_view_id, None);
        let at_result_field = behind(at_view_id, view_id);
        let result_field = RequestEquipItemStatus::decoding(data, at_result_field, None);
        let behind_all = behind(at_result_field, result_field);
        if inventory_index is Err {
            Err(inventory_index->Err_0)
        } else if equipped_position is Err {
            Err(equipped_position->Err_0)
        } else if view_id is Err {
            Err(view_id->Err_0)
        } else if result_field is Err {
            Err(result_field->Err_0)
        } else {
            Ok(
                (
                    RequestEquipItemStatusPacket {
                        inventory_index: inventory_index->Ok_0.0,
                        equipped_position: equipped_position->Ok_0.0,
                        view_id: view_id->Ok_0.0,
                        result: result_field->Ok_0.0,
                    },
                    (behind_all - at) as nat,
                ),
            )
        }
    }

    open spec fn encodable(value: RequestEquipItemStatusPacket) -> bool {
        ItemIndex::encodable(value.inventory_index, None)
    }

    #[verifier::opaque]
    open spec fn payload_encoding(value: RequestEquipItemStatusPacket) -> Seq<u8> {
        ItemIndex::encoding(value.inventory_index, None)
            + EquipPosition::encoding(value.equipped_position, None)
            + u16::encoding(value.view_id, None)
            + RequestEquipItemStatus::encoding(value.result, None)
    }

    fn header() -> (header: u16) {
        0x0999
    }

    fn payload_from_bytes(byte_stream: &mut ByteStream) -> (result: Result<
        Self,
        ConversionError,
    >) {
        proof {
            reveal(<RequestEquipItemStatusPacket as Packet>::payload_decoding);
        }
        let mut cursor = byte_stream.fork();
        let inventory_index = ItemIndex::from_bytes(&mut cursor, None)?;
        let equipped_position = EquipPosition::from_bytes(&mut cursor, None)?;
        let view_id = u16::from_bytes(&mut cursor, None)?;
        let result_field = RequestEquipItemStatus::from_bytes(&mut cursor, None)?;
        byte_stream.follow(&cursor);
        Ok(RequestEquipItemStatusPacket {
            inventory_index,
            equipped_position,
            view_id,
            result: result_field,
        })
    }

    fn payload_to_bytes(&self) -> (bytes: Vec<u8>) {
        proof {
            reveal(<RequestEquipItemStatusPacket as Packet>::payload_encoding);
        }
        let mut bytes = self.inventory_index.to_bytes(None);
        let mut piece = self.equipped_position.to_bytes(None);
        bytes.append(&mut piece);
        let mut piece = self.view_id.to_bytes(None);
        bytes.append(&mut piece);
        let mut piece = self.result.to_bytes(None);
        bytes.append(&mut piece);
        bytes
    }

    proof fn lemma_payload_round_trip(value: RequestEquipItemStatusPacket, data: Seq<u8>, at: int) {
        reveal(<RequestEquipItemStatusPacket as Packet>::payload_decoding);
        reveal(<RequestEquipItemStatusPacket as Packet>::payload_encoding);
        let piece_0 = ItemIndex::encoding(value.inventory_index, None);
        let piece_1 = EquipPosition::encoding(value.equipped_position, None);
        let piece_2 = u16::encoding(value.view_id, None);
        let piece_3 = RequestEquipItemStatus::encoding(value.result, None);
        let front_1 = piece_0;
        let front_2 = front_1 + piece_1;
        let front_3 = front_2 + piece_2;
        lemma_holds_at_split(data, at, front_3, piece_3);
        lemma_holds_at_split(data, at, front_2, piece_2);
        lemma_holds_at_split(data, at, front_1, piece_1);
        ItemIndex::lemma_round_trip(value.inventory_index, None, data, at);
        EquipPosition::lemma_round_trip(value.equipped_position, None, data, at + front_1.len());
        u16::lemma_round_trip(value.view_id, None, data, at + front_2.len());
        RequestEquipItemStatus::lemma_round_trip(value.result, None, data, at + front_3.len());
    }
}

#[derive(Clone, Copy, Debug)]
pub struct RequestUnequipItemPacket {
    pub inventory_index: ItemIndex,
}

impl RequestUnequipItemPacket {
    /// The packet that [`new`](Self::new) makes.
    pub open spec fn made(inventory_index: ItemIndex) -> RequestUnequipItemPacket {
        RequestUnequipItemPacket { inventory_index }
    }

    pub fn new(inventory_index: ItemIndex) -> (packet: Self)
        ensures
            packet.model() == Self::made(inventory_index.model()),
    {
        let packet = RequestUnequipItemPacket { inventory_index };
        packet
    }
}

impl Packet for RequestUnequipItemPacket {
    type Model = RequestUnequipItemPacket;

    const PACKET_NAME: &'static str = "RequestUnequipItemPacket";

    const IS_PING: bool = false;

    open spec fn model(&self) -> RequestUnequipItemPacket {
        *self
    }

    open spec fn packet_header() -> u16 {
        0x00ab
    }

    #[verifier::opaque]
    open spec fn payload_decoding(data: Seq<u8>, at: int) -> Result<
        (RequestUnequipItemPacket, nat),
        ConversionError,
    > {
        let inventory_index = ItemIndex::decoding(data, at, None);
        let behind_all = behind(at, inventory_index);
        if inventory_index is Err {
            Err(inventory_index->Err_0)
        } else {
            Ok(
                (
                    RequestUnequipItemPacket {
                        inventory_index: inventory_index->Ok_0.0,
                    },
                    (behind_all - at) as nat,
                ),
            )
        }
    }

    open spec fn encodable(value: RequestUnequipItemPacket) -> bool {
        ItemIndex::encodable(value.inventory_index, None)
    }

    #[verifier::opaque]
    open spec fn payload_encoding(value: RequestUnequipItemPacket) -> Seq<u8> {
        ItemIndex::encoding(value.inventory_index, None)
    }

    fn header() -> (header: u16) {
        0x00ab
    }

    fn payload_from_bytes(byte_stream: &mut ByteStream) -> (result: Result<
        Self,
        ConversionError,
    >) {
        proof {
            reveal(<RequestUnequipItemPacket as Packet>::payload_decoding);
        }
        let mut cursor = byte_stream.fork();
        let inventory_index = ItemIndex::from_bytes(&mut cursor, None)?;
        byte_stream.follow(&cursor);
        Ok(RequestUnequipItemPacket { inventory_index })
    }

    fn payload_to_bytes(&self) -> (bytes: Vec<u8>) {
        proof {
            reveal(<RequestUnequipItemPacket as Packet>::payload_encoding);
        }
        let bytes = self.inventory_index.to_bytes(None);
        bytes
    }

    proof fn lemma_payload_round_trip(value: RequestUnequipItemPacket, data: Seq<u8>, at: int) {
        reveal(<RequestUnequipItemPacket as Packet>::payload_decoding);
        reveal(<RequestUnequipItemPacket as Packet>::payload_encoding);
        let piece_0 = ItemIndex::encoding(value.inventory_index, None);
        ItemIndex::lemma_round_trip(value.inventory_index, None, data, at);
    }
}

#[derive(Clone, Copy, Debug, PartialEq, Eq, Structural)]
pub enum RequestUnequipItemStatus {
    Success,
    Failed,
}

impl RequestUnequipItemStatus {
    /// The number that stands for a variant on the wire.
    pub open spec fn code(self) -> u8 {
        match self {
            RequestUnequipItemStatus::Success => 0,
            RequestUnequipItemStatus::Failed => 1,
        }
    }

    /// The variant that a number stands for.
    pub open spec fn of_code(code: u8) -> Option<RequestUnequipItemStatus> {
        if code == 0 {
            Some(RequestUnequipItemStatus::Success)
        } else if code == 1 {
            Some(RequestUnequipItemStatus::Failed)
        } else {
            None
        }
    }
}

impl ByteConvertable for RequestUnequipItemStatus {
    type Model = RequestUnequipItemStatus;

    open spec fn model(&self) -> RequestUnequipItemStatus {
        *self
    }

    open spec fn accepts(length_hint: Option<usize>) -> bool {
        length_hint is None
    }

    open spec fn decoding(data: Seq<u8>, at: int, length_hint: Option<usize>) -> Result<
        (RequestUnequipItemStatus, nat),
        ConversionError,
    > {
        match u8::decoding(data, at, None) {
            Ok((code, length)) => match RequestUnequipItemStatus::of_code(code) {
                Some(value) => Ok((value, length)),
                None => Err(ConversionError::Invalid),
            },
            Err(error) => Err(error),
        }
    }

    open spec fn encodable(value: RequestUnequipItemStatus, length_hint: Option<usize>) -> bool {
        true
    }

    open spec fn encoding(value: RequestUnequipItemStatus, length_hint: Option<usize>) -> Seq<u8> {
        u8::encoding(value.code(), None)
    }

    fn from_bytes(byte_stream: &mut ByteStream, length_hint: Option<usize>) -> (result: Result<
        Self,
        ConversionError,
    >) {
        let mut cursor = byte_stream.fork();
        let code = u8::from_bytes(&mut cursor, None)?;
        let value = match code {
            0 => RequestUnequipItemStatus::Success,
            1 => RequestUnequipItemStatus::Failed,
            _ => return Err(ConversionError::Invalid),
        };
        byte_stream.follow(&cursor);
        Ok(value)
    }

    fn to_bytes(&self, length_hint: Option<usize>) -> (bytes: Vec<u8>) {
        let code: u8 = match self {
            RequestUnequipItemStatus::Success => 0,
            RequestUnequipItemStatus::Failed => 1,
        };
        code.to_bytes(None)
    }

    proof fn lemma_round_trip(
        value: RequestUnequipItemStatus,
        length_hint: Option<usize>,
        data: Seq<u8>,
        at: int,
    ) {
        u8::lemma_round_trip(value.code(), None, data, at);
    }
}

impl FixedByteSize for RequestUnequipItemStatus {
    open spec fn size() -> nat {
        1
    }

    fn size_in_bytes() -> (size: usize) {
        1
    }

    proof fn lemma_fixed_size(data: Seq<u8>, at: int, value: RequestUnequipItemStatus) {
        assert(Self::size() == 1);
    }
}

#[derive(Clone, Copy, Debug)]
pub struct RequestUnequipItemStatusPacket {
    pub inventory_index: ItemIndex,
    pub equipped_position: EquipPosition,
    pub result: RequestUnequipItemStatus,
}

impl Packet for RequestUnequipItemStatusPacket {
    type Model = RequestUnequipItemStatusPacket;

    const PACKET_NAME: &'static str = "RequestUnequipItemStatusPacket";

    const IS_PING: bool = false;

    open spec fn model(&self) -> RequestUnequipItemStatusPacket {
        *self
    }

    open spec fn packet_header() -> u16 {
        0x099a
    }

    #[verifier::opaque]
    open spec fn payload_decoding(data: Seq<u8>, at: int) -> Result<
        (RequestUnequipItemStatusPacket, nat),
        ConversionError,
    > {
        let inventory_index = ItemIndex::decoding(data, at, None);
        let at_equipped_position = behind(at, inventory_index);
        let equipped_position = EquipPosition::decoding(data, at_equipped_position, None);
        let at_result_field = behind(at_equipped_position, equipped_position);
        let result_field = RequestUnequipItemStatus::decoding(data, at_result_field, None);
        let behind_all = behind(at_result_field, result_field);
        if inventory_index is Err {
            Err(inventory_index->Err_0)
        } else if equipped_position is Err {
            Err(equipped_position->Err_0)
        } else if result_field is Err {
            Err(result_field->Err_0)
        } else {
            Ok(
                (
                    RequestUnequipItemStatusPacket {
                        inventory_index: inventory_index->Ok_0.0,
                        equipped_position: equipped_position->Ok_0.0,
                        result: result_field->Ok_0.0,
                    },
                    (behind_all - at) as nat,
                ),
            )
        }
    }

    open spec fn encodable(value: RequestUnequipItemStatusPacket) -> bool {
        ItemIndex::encodable(value.inventory_index, None)
    }

    #[verifier::opaque]
    open spec fn payload_encoding(value: RequestUnequipItemStatusPacket) -> Seq<u8> {
        ItemIndex::encoding(value.inventory_index, None)
            + EquipPosition::encoding(value.equipped_position, None)
            + RequestUnequipItemStatus::encoding(value.result, None)
    }

    fn header() -> (header: u16) {
        0x099a
    }

    fn payload_from_bytes(byte_stream: &mut ByteStream) -> (result: Result<
        Self,
        ConversionError,
    >) {
        proof {
            reveal(<RequestUnequipItemStatusPacket as Packet>::payload_decoding);
        }
        let mut cursor = byte_stream.fork();
        let inventory_index = ItemIndex::from_bytes(&mut cursor, None)?;
        let equipped_position = EquipPosition::from_bytes(&mut cursor, None)?;
        let result_field = RequestUnequipItemStatus::from_bytes(&mut cursor, None)?;
        byte_stream.follow(&cursor);
        Ok(RequestUnequipItemStatusPacket {
            inventory_index,
            equipped_position,
            result: result_field,
        })
    }

    fn payload_to_bytes(&self) -> (bytes: Vec<u8>) {
        proof {
            reveal(<RequestUnequipItemStatusPacket as Packet>::payload_encoding);
        }
        let mut bytes = self.inventory_index.to_bytes(None);
        let mut piece = self.equipped_position.to_bytes(None);
        bytes.append(&mut piece);
        let mut piece = self.result.to_bytes(None);
        bytes.append(&mut piece);
        bytes
    }

    proof fn lemma_payload_round_trip(
        value: RequestUnequipItemStatusPacket,
        data: Seq<u8>,
        at: int,
    ) {
        reveal(<RequestUnequipItemStatusPacket as Packet>::payload_decoding);
        reveal(<RequestUnequipItemStatusPacket as Packet>::payload_encoding);
        let piece_0 = ItemIndex::encoding(value.inventory_index, None);
        let piece_1 = EquipPosition::encoding(value.equipped_position, None);
        let piece_2 = RequestUnequipItemStatus::encoding(value.result, None);
        let front_1 = piece_0;
        let front_2 = front_1 + piece_1;
        lemma_holds_at_split(data, at, front_2, piece_2);
        lemma_holds_at_split(data, at, front_1, piece_1);
        ItemIndex::lemma_round_trip(value.inventory_index, None, data, at);
        EquipPosition::lemma_round_trip(value.equipped_position, None, data, at + front_1.len());
        RequestUnequipItemStatus::lemma_round_trip(value.result, None, data, at + front_2.len());
    }
}

impl EquipPosition {
    /// The name of a position, as the player reads it.
    pub open spec fn name(self) -> Seq<char> {
        match self {
            EquipPosition::NoPosition => Seq::empty(),
            EquipPosition::HeadLower => "head lower"@,
            EquipPosition::HeadMiddle => "head middle"@,
            EquipPosition::HeadTop => "head top"@,
            EquipPosition::RightHand => "right hand"@,
            EquipPosition::LeftHand => "left hand"@,
            EquipPosition::Armor => "armor"@,
            EquipPosition::Shoes => "shoes"@,
            EquipPosition::Garment => "garment"@,
            EquipPosition::LeftAccessory => "left accessory"@,
            EquipPosition::RigthAccessory => "right accessory"@,
            EquipPosition::CostumeHeadTop => "costume head top"@,
            EquipPosition::CostumeHeadMiddle => "costume head middle"@,
            EquipPosition::CostumeHeadLower => "costume head lower"@,
            EquipPosition::CostumeGarment => "costume garment"@,
            EquipPosition::Ammo => "ammo"@,
            EquipPosition::ShadowArmor => "shadow ammo"@,
            EquipPosition::ShadowWeapon => "shadow weapon"@,
            EquipPosition::ShadowShield => "shadow shield"@,
            EquipPosition::ShadowShoes => "shadow shoes"@,
            EquipPosition::ShadowRightAccessory => "shadow right accessory"@,
            EquipPosition::ShadowLeftAccessory => "shadow left accessory"@,
            EquipPosition::LeftRightAccessory => "accessory"@,
            EquipPosition::LeftRightHand => "two hand weapon"@,
            EquipPosition::ShadowLeftRightAccessory => "shadow accessory"@,
        }
    }

    /// The name of a position that an item can take. No position has no name.
    pub fn display_name(&self) -> (name: &'static str)
        requires
            *self != EquipPosition::NoPosition,
        ensures
            name@ == self.name(),
    {
        match self {
            EquipPosition::NoPosition => "",
            EquipPosition::HeadLower => "head lower",
            EquipPosition::HeadMiddle => "head middle",
            EquipPosition::HeadTop => "head top",
            EquipPosition::RightHand => "right hand",
            EquipPosition::LeftHand => "left hand",
            EquipPosition::Armor => "armor",
            EquipPosition::Shoes => "shoes",
            EquipPosition::Garment => "garment",
            EquipPosition::LeftAccessory => "left accessory",
            EquipPosition::RigthAccessory => "right accessory",
            EquipPosition::CostumeHeadTop => "costume head top",
            EquipPosition::CostumeHeadMiddle => "costume head middle",
            EquipPosition::CostumeHeadLower => "costume head lower",
            EquipPosition::CostumeGarment => "costume garment",
            EquipPosition::Ammo => "ammo",
            EquipPosition::ShadowArmor => "shadow ammo",
            EquipPosition::ShadowWeapon => "shadow weapon",
            EquipPosition::ShadowShield => "shadow shield",
            EquipPosition::ShadowShoes => "shadow shoes",
            EquipPosition::ShadowRightAccessory => "shadow right accessory",
            EquipPosition::ShadowLeftAccessory => "shadow left accessory",
            EquipPosition::LeftRightAccessory => "accessory",
            EquipPosition::LeftRightHand => "two hand weapon",
            EquipPosition::ShadowLeftRightAccessory => "shadow accessory",
        }
    }
}

} // verus!
