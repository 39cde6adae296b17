//! The packets about skills and combat.

use cgmath::Vector2;
use vstd::prelude::*;

use crate::loaders::convertable::{
    all_encodable, all_faithful, behind, count_whole, decode_fixed, decode_repeated, encode_fixed,
    encode_repeated, lemma_repeated_round_trip, lemma_repeated_size, lemma_whole_count, models,
    repeated_decoding, repeated_encoding, whole_count, ByteConvertable, FixedByteSize,
};
use crate::loaders::stream::{ByteStream, ConversionError};
use crate::loaders::wire::{lemma_holds_at_bounds, lemma_holds_at_split, lemma_holds_at_take};
use crate::network::ids::{ClientTick, EntityId, ItemId, SkillId, SkillLevel};
use crate::network::packet::{LengthPrefixed, Packet};

verus! {

#[derive(Clone, Copy, Debug, PartialEq, Eq, Structural)]
pub enum SkillType {
    Passive,
    Attack,
    Ground,
    SelfCast,
    Support,
    Trap,
}

impl SkillType {
    /// The number that stands for a variant on the wire.
    pub open spec fn code(self) -> u32 {
        match self {
            SkillType::Passive => 0,
            SkillType::Attack => 1,
            SkillType::Ground => 2,
            SkillType::SelfCast => 4,
            SkillType::Support => 16,
            SkillType::Trap => 32,
        }
    }

    /// The variant that a number stands for.
    pub open spec fn of_code(code: u32) -> Option<SkillType> {
        if code == 0 {
            Some(SkillType::Passive)
        } else if code == 1 {
            Some(SkillType::Attack)
        } else if code == 2 {
            Some(SkillType::Ground)
        } else if code == 4 {
            Some(SkillType::SelfCast)
        } else if code == 16 {
            Some(SkillType::Support)
        } else if code == 32 {
            Some(SkillType::Trap)
        } else {
            None
        }
    }
}

impl ByteConvertable for SkillType {
    type Model = SkillType;

    open spec fn model(&self) -> SkillType {
        *self
    }

    open spec fn accepts(length_hint: Option<usize>) -> bool {
        length_hint is None
    }

    open spec fn decoding(data: Seq<u8>, at: int, length_hint: Option<usize>) -> Result<
        (SkillType, nat),
        ConversionError,
    > {
        match u32::decoding(data, at, None) {
            Ok((code, length)) => match SkillType::of_code(code) {
                Some(value) => Ok((value, length)),
                None => Err(ConversionError::Invalid),
            },
            Err(error) => Err(error),
        }
    }

    open spec fn encodable(value: SkillType, length_hint: Option<usize>) -> bool {
        true
    }

    open spec fn encoding(value: SkillType, length_hint: Option<usize>) -> Seq<u8> {
        u32::encoding(value.code(), None)
    }

    fn from_bytes(byte_stream: &mut ByteStream, length_hint: Option<usize>) -> (result: Result<
        Self,
        ConversionError,
    >) {
        let mut cursor = byte_stream.fork();
        let code = u32::from_bytes(&mut cursor, None)?;
        let value = match code {
            0 => SkillType::Passive,
            1 => SkillType::Attack,
            2 => SkillType::Ground,
            4 => SkillType::SelfCast,
            16 => SkillType::Support,
            32 => SkillType::Trap,
            _ => return Err(ConversionError::Invalid),
        };
        byte_stream.follow(&cursor);
        Ok(value)
    }

    fn to_bytes(&self, length_hint: Option<usize>) -> (bytes: Vec<u8>) {
        let code: u32 = match self {
            SkillType::Passive => 0,
            SkillType::Attack => 1,
            SkillType::Ground => 2,
            SkillType::SelfCast => 4,
            SkillType::Support => 16,
            SkillType::Trap => 32,
        };
        code.to_bytes(None)
    }

    proof fn lemma_round_trip(
        value: SkillType,
        length_hint: Option<usize>,
        data: Seq<u8>,
        at: int,
    ) {
        u32::lemma_round_trip(value.code(), None, data, at);
    }
}

impl FixedByteSize for SkillType {
    open spec fn size() -> nat {
        4
    }

    fn size_in_bytes() -> (size: usize) {
        4
    }

    proof fn lemma_fixed_size(data: Seq<u8>, at: int, value: SkillType) {
        assert(Self::size() == 4);
    }
}

#[derive(Clone, Debug)]
pub struct SkillInformation {
    pub skill_id: SkillId,
    pub skill_type: SkillType,
    pub skill_level: SkillLevel,
    pub spell_point_cost: u16,
    pub attack_range: u16,
    pub skill_name: String,
    pub upgraded: u8,
}

/// What a [`SkillInformation`] stands for.
pub struct SkillInformationModel {
    pub skill_id: SkillId,
    pub skill_type: SkillType,
    pub skill_level: SkillLevel,
    pub spell_point_cost: u16,
    pub attack_range: u16,
    pub skill_name: Seq<char>,
    pub upgraded: u8,
}

impl ByteConvertable for SkillInformation {
    type Model = SkillInformationModel;

    open spec fn model(&self) -> SkillInformationModel {
        SkillInformationModel {
            skill_id: self.skill_id.model(),
            skill_type: self.skill_type.model(),
            skill_level: self.skill_level.model(),
            spell_point_cost: self.spell_point_cost.model(),
            attack_range: self.attack_range.model(),
            skill_name: self.skill_name.model(),
            upgraded: self.upgraded.model(),
        }
    }

    open spec fn accepts(length_hint: Option<usize>) -> bool {
        length_hint is None
    }

    #[verifier::opaque]
    open spec fn decoding(data: Seq<u8>, at: int, length_hint: Option<usize>) -> Result<
        (SkillInformationModel, nat),
        ConversionError,
    > {
        let skill_id = SkillId::decoding(data, at, None);
        let at_skill_type = behind(at, skill_id);
        let skill_type = SkillType::decoding(data, at_skill_type, None);
        let at_skill_level = behind(at_skill_type, skill_type);
        let skill_level = SkillLevel::decoding(data, at_skill_level, None);
        let at_spell_point_cost = behind(at_skill_level, skill_level);
        let spell_point_cost = u16::decoding(data, at_spell_point_cost, None);
        let at_attack_range = behind(at_spell_point_cost, spell_point_cost);
        let attack_range = u16::decoding(data, at_attack_range, None);
        let at_skill_name = behind(at_attack_range, attack_range);
        let skill_name = String::decoding(data, at_skill_name, Some(24));
        let at_upgraded = behind(at_skill_name, skill_name);
        let upgraded = u8::decoding(data, at_upgraded, None);
        let behind_all = behind(at_upgraded, upgraded);
        if skill_id is Err {
            Err(skill_id->Err_0)
        } else if skill_type is Err {
            Err(skill_type->Err_0)
        } else if skill_level is Err {
            Err(skill_level->Err_0)
        } else if spell_point_cost is Err {
            Err(spell_point_cost->Err_0)
        } else if attack_range is Err {
            Err(attack_range->Err_0)
        } else if skill_name is Err {
            Err(skill_name->Err_0)
        } else if upgraded is Err {
            Err(upgraded->Err_0)
        } else {
            Ok(
                (
                    SkillInformationModel {
                        skill_id: skill_id->Ok_0.0,
                        skill_type: skill_type->Ok_0.0,
                        skill_level: skill_level->Ok_0.0,
                        spell_point_cost: spell_point_cost->Ok_0.0,
                        attack_range: attack_range->Ok_0.0,
                        skill_name: skill_name->Ok_0.0,
                        upgraded: upgraded->Ok_0.0,
                    },
                    (behind_all - at) as nat,
                ),
            )
        }
    }

    open spec fn encodable(value: SkillInformationModel, length_hint: Option<usize>) -> bool {
        String::encodable(value.skill_name, Some(24))
    }

    open spec fn faithful(value: SkillInformationModel, length_hint: Option<usize>) -> bool {
        String::faithful(value.skill_name, Some(24))
    }

    #[verifier::opaque]
    open spec fn encoding(value: SkillInformationModel, length_hint: Option<usize>) -> Seq<u8> {
        SkillId::encoding(value.skill_id, None)
            + SkillType::encoding(value.skill_type, None)
            + SkillLevel::encoding(value.skill_level, None)
            + u16::encoding(value.spell_point_cost, None)
            + u16::encoding(value.attack_range, None)
            + String::encoding(value.skill_name, Some(24))
            + u8::encoding(value.upgraded, None)
    }

    fn from_bytes(byte_stream: &mut ByteStream, length_hint: Option<usize>) -> (result: Result<
        Self,
        ConversionError,
    >) {
        proof {
            reveal(<SkillInformation as ByteConvertable>::decoding);
        }
        let mut cursor = byte_stream.fork();
        let skill_id = SkillId::from_bytes(&mut cursor, None)?;
        let skill_type = SkillType::from_bytes(&mut cursor, None)?;
        let skill_level = SkillLevel::from_bytes(&mut cursor, None)?;
        let spell_point_cost = u16::from_bytes(&mut cursor, None)?;
        let attack_range = u16::from_bytes(&mut cursor, None)?;
        let skill_name = String::from_bytes(&mut cursor, Some(24))?;
        let upgraded = u8::from_bytes(&mut cursor, None)?;
        byte_stream.follow(&cursor);
        Ok(SkillInformation {
            skill_id,
            skill_type,
            skill_level,
            spell_point_cost,
            attack_range,
            skill_name,
            upgraded,
        })
    }

    fn to_bytes(&self, length_hint: Option<usize>) -> (bytes: Vec<u8>) {
        proof {
            reveal(<SkillInformation as ByteConvertable>::encoding);
        }
        let mut bytes = self.skill_id.to_bytes(None);
        let mut piece = self.skill_type.to_bytes(None);
        bytes.append(&mut piece);
        let mut piece = self.skill_level.to_bytes(None);
        bytes.append(&mut piece);
        let mut piece = self.spell_point_cost.to_bytes(None);
        bytes.append(&mut piece);
        let mut piece = self.attack_range.to_bytes(None);
        bytes.append(&mut piece);
        let mut piece = self.skill_name.to_bytes(Some(24));
        bytes.append(&mut piece);
        let mut piece = self.upgraded.to_bytes(None);
        bytes.append(&mut piece);
        bytes
    }

    proof fn lemma_round_trip(
        value: SkillInformationModel,
        length_hint: Option<usize>,
        data: Seq<u8>,
        at: int,
    ) {
        reveal(<SkillInformation as ByteConvertable>::decoding);
        reveal(<SkillInformation as ByteConvertable>::encoding);
        let piece_0 = SkillId::encoding(value.skill_id, None);
        let piece_1 = SkillType::encoding(value.skill_type, None);
        let piece_2 = SkillLevel::encoding(value.skill_level, None);
        let piece_3 = u16::encoding(value.spell_point_cost, None);
        let piece_4 = u16::encoding(value.attack_range, None);
        let piece_5 = String::encoding(value.skill_name, Some(24));
        let piece_6 = u8::encoding(value.upgraded, None);
        let front_1 = piece_0;
        let front_2 = front_1 + piece_1;
        let front_3 = front_2 + piece_2;
        let front_4 = front_3 + piece_3;
        let front_5 = front_4 + piece_4;
        let front_6 = front_5 + piece_5;
        lemma_holds_at_split(data, at, front_6, piece_6);
        lemma_holds_at_split(data, at, front_5, piece_5);
        lemma_holds_at_split(data, at, front_4, piece_4);
        lemma_holds_at_split(data, at, front_3, piece_3);
        lemma_holds_at_split(data, at, front_2, piece_2);
        lemma_holds_at_split(data, at, front_1, piece_1);
        SkillId::lemma_round_trip(value.skill_id, None, data, at);
        SkillType::lemma_round_trip(value.skill_type, None, data, at + front_1.len());
        SkillLevel::lemma_round_trip(value.skill_level, None, data, at + front_2.len());
        u16::lemma_round_trip(value.spell_point_cost, None, data, at + front_3.len());
        u16::lemma_round_trip(value.attack_range, None, data, at + front_4.len());
        String::lemma_round_trip(value.skill_name, Some(24), data, at + front_5.len());
        u8::lemma_round_trip(value.upgraded, None, data, at + front_6.len());
    }
}

impl FixedByteSize for SkillInformation {
    open spec fn size() -> nat {
        37
    }

    fn size_in_bytes() -> (size: usize) {
        37
    }

    proof fn lemma_fixed_size(data: Seq<u8>, at: int, value: SkillInformationModel) {
        reveal(<SkillInformation as ByteConvertable>::decoding);
        reveal(<SkillInformation as ByteConvertable>::encoding);
        assert(Self::size() == 37);
        SkillId::lemma_fixed_size(data, at, value.skill_id);
        SkillType::lemma_fixed_size(data, at + 2, value.skill_type);
        SkillLevel::lemma_fixed_size(data, at + 6, value.skill_level);
        u16::lemma_fixed_size(data, at + 8, value.spell_point_cost);
        u16::lemma_fixed_size(data, at + 10, value.attack_range);
        u8::lemma_fixed_size(data, at + 36, value.upgraded);
    }
}

#[derive(Clone, Debug)]
pub struct UpdateSkillTreePacket {
    pub packet_length: u16,
    pub skill_information: Vec<SkillInformation>,
}

/// What a [`UpdateSkillTreePacket`] stands for.
pub struct UpdateSkillTreePacketModel {
    pub packet_length: u16,
    pub skill_information: Seq<SkillInformationModel>,
}

impl Packet for UpdateSkillTreePacket {
    type Model = UpdateSkillTreePacketModel;

    const PACKET_NAME: &'static str = "UpdateSkillTreePacket";

    const IS_PING: bool = false;

    open spec fn model(&self) -> UpdateSkillTreePacketModel {
        UpdateSkillTreePacketModel {
            packet_length: self.packet_length.model(),
            skill_information: models(self.skill_information@),
        }
    }

    open spec fn packet_header() -> u16 {
        0x010f
    }

    #[verifier::opaque]
    open spec fn payload_decoding(data: Seq<u8>, at: int) -> Result<
        (UpdateSkillTreePacketModel, nat),
        ConversionError,
    > {
        let packet_length = u16::decoding(data, at, None);
        let end = at - 2 + packet_length->Ok_0.0;
        let frame = data.take(end);
        let at_skill_information = behind(at, packet_length);
        let skill_information = repeated_decoding::<SkillInformation>(
            frame,
            at_skill_information,
            whole_count::<SkillInformation>(packet_length->Ok_0.0 - 4)->Some_0,
        );
        let behind_all = behind(at_skill_information, skill_information);
        if packet_length is Err {
            Err(packet_length->Err_0)
        } else if packet_length->Ok_0.0 < 4 {
            Err(ConversionError::Invalid)
        } else if end > data.len() {
            Err(ConversionError::Incomplete)
        } else if whole_count::<SkillInformation>(packet_length->Ok_0.0 - 4) is None
            || skill_information is Err
            || behind_all != end {
            Err(ConversionError::Invalid)
        } else {
            Ok(
                (
                    UpdateSkillTreePacketModel {
                        packet_length: packet_length->Ok_0.0,
                        skill_information: skill_information->Ok_0.0,
                    },
                    (behind_all - at) as nat,
                ),
            )
        }
    }

    open spec fn encodable(value: UpdateSkillTreePacketModel) -> bool {
        &&& all_encodable::<SkillInformation>(value.skill_information)
        &&& value.packet_length == 2 + Self::payload_encoding(value).len()
    }

    open spec fn faithful(value: UpdateSkillTreePacketModel) -> bool {
        all_faithful::<SkillInformation>(value.skill_information)
    }

    #[verifier::opaque]
    open spec fn payload_encoding(value: UpdateSkillTreePacketModel) -> Seq<u8> {
        u16::encoding(value.packet_length, None)
            + repeated_encoding::<SkillInformation>(value.skill_information)
    }

    fn header() -> (header: u16) {
        0x010f
    }

    fn payload_from_bytes(byte_stream: &mut ByteStream) -> (result: Result<
        Self,
        ConversionError,
    >) {
        proof {
            reveal(<UpdateSkillTreePacket as Packet>::payload_decoding);
        }
        let mut cursor = byte_stream.fork();
        let packet_length = u16::from_bytes(&mut cursor, None)?;
        if packet_length < 4 {
            return Err(ConversionError::Invalid);
        }
        if cursor.remaining_length() < (packet_length - 4) as usize {
            return Err(ConversionError::Incomplete);
        }
        let end = cursor.get_offset() + (packet_length - 4) as usize;
        let mut frame = cursor.frame(end);
        let count = match count_whole::<SkillInformation>((packet_length - 4) as usize) {
            Some(count) => count,
            None => return Err(ConversionError::Invalid),
        };
        let skill_information = match decode_repeated::<SkillInformation>(&mut frame, count) {
            Ok(value) => value,
            Err(_) => return Err(ConversionError::Invalid),
        };
        if !frame.is_empty() {
            return Err(ConversionError::Invalid);
        }
        byte_stream.follow(&frame);
        Ok(UpdateSkillTreePacket { packet_length, skill_information })
    }

    fn payload_to_bytes(&self) -> (bytes: Vec<u8>) {
        proof {
            reveal(<UpdateSkillTreePacket as Packet>::payload_encoding);
        }
        let mut bytes = self.packet_length.to_bytes(None);
        let mut piece = encode_repeated::<SkillInformation>(&self.skill_information);
        bytes.append(&mut piece);
        bytes
    }

    proof fn lemma_payload_round_trip(value: UpdateSkillTreePacketModel, data: Seq<u8>, at: int) {
        reveal(<UpdateSkillTreePacket as Packet>::payload_decoding);
        reveal(<UpdateSkillTreePacket as Packet>::payload_encoding);
        let piece_0 = u16::encoding(value.packet_length, None);
        let piece_1 = repeated_encoding::<SkillInformation>(value.skill_information);
        let front_1 = piece_0;
        lemma_holds_at_split(data, at, front_1, piece_1);
        lemma_holds_at_bounds(data, at, Self::payload_encoding(value));
        let end = at - 2 + value.packet_length;
        let frame = data.take(end);
        u16::lemma_round_trip(value.packet_length, None, data, at);
        lemma_holds_at_take(data, end, at + front_1.len(), piece_1);
        lemma_repeated_size::<SkillInformation>(frame, at + front_1.len(), value.skill_information);
        assert(SkillInformation::size() == 37);
        lemma_whole_count::<SkillInformation>(value.skill_information.len());
        lemma_repeated_round_trip::<SkillInformation>(
            value.skill_information,
            frame,
            at + front_1.len(),
        );
    }
}

impl LengthPrefixed for UpdateSkillTreePacket {
    open spec fn announced_length(value: UpdateSkillTreePacketModel) -> u16 {
        value.packet_length
    }

    proof fn lemma_exact_length(data: Seq<u8>, at: int) {
        reveal(<UpdateSkillTreePacket as Packet>::payload_decoding);
    }
}

#[derive(Clone, Copy, Debug)]
pub struct HotkeyData {
    pub is_skill: u8,
    pub skill_id: u32,
    pub quantity_or_skill_level: SkillLevel,
}

impl ByteConvertable for HotkeyData {
    type Model = HotkeyData;

    open spec fn model(&self) -> HotkeyData {
        *self
    }

    open spec fn accepts(length_hint: Option<usize>) -> bool {
        length_hint is None
    }

    #[verifier::opaque]
    open spec fn decoding(data: Seq<u8>, at: int, length_hint: Option<usize>) -> Result<
        (HotkeyData, nat),
        ConversionError,
    > {
        let is_skill = u8::decoding(data, at, None);
        let at_skill_id = behind(at, is_skill);
        let skill_id = u32::decoding(data, at_skill_id, None);
        let at_quantity_or_skill_level = behind(at_skill_id, skill_id);
        let quantity_or_skill_level = SkillLevel::decoding(data, at_quantity_or_skill_level, None);
        let behind_all = behind(at_quantity_or_skill_level, quantity_or_skill_level);
        if is_skill is Err {
            Err(is_skill->Err_0)
        } else if skill_id is Err {
            Err(skill_id->Err_0)
        } else if quantity_or_skill_level is Err {
            Err(quantity_or_skill_level->Err_0)
        } else {
            Ok(
                (
                    HotkeyData {
                        is_skill: is_skill->Ok_0.0,
                        skill_id: skill_id->Ok_0.0,
                        quantity_or_skill_level: quantity_or_skill_level->Ok_0.0,
                    },
                    (behind_all - at) as nat,
                ),
            )
        }
    }

    open spec fn encodable(value: HotkeyData, length_hint: Option<usize>) -> bool {
        true
    }

    #[verifier::opaque]
    open spec fn encoding(value: HotkeyData, length_hint: Option<usize>) -> Seq<u8> {
        u8::encoding(value.is_skill, None)
            + u32::encoding(value.skill_id, None)
            + SkillLevel::encoding(value.quantity_or_skill_level, None)
    }

    fn from_bytes(byte_stream: &mut ByteStream, length_hint: Option<usize>) -> (result: Result<
        Self,
        ConversionError,
    >) {
        proof {
            reveal(<HotkeyData as ByteConvertable>::decoding);
        }
        let mut cursor = byte_stream.fork();
        let is_skill = u8::from_bytes(&mut cursor, None)?;
        let skill_id = u32::from_bytes(&mut cursor, None)?;
        let quantity_or_skill_level = SkillLevel::from_bytes(&mut cursor, None)?;
        byte_stream.follow(&cursor);
        Ok(HotkeyData { is_skill, skill_id, quantity_or_skill_level })
    }

    fn to_bytes(&self, length_hint: Option<usize>) -> (bytes: Vec<u8>) {
        proof {
            reveal(<HotkeyData as ByteConvertable>::encoding);
        }
        let mut bytes = self.is_skill.to_bytes(None);
        let mut piece = self.skill_id.to_bytes(None);
        bytes.append(&mut piece);
        let mut piece = self.quantity_or_skill_level.to_bytes(None);
        bytes.append(&mut piece);
        bytes
    }

    proof fn lemma_round_trip(
        value: HotkeyData,
        length_hint: Option<usize>,
        data: Seq<u8>,
        at: int,
    ) {
        reveal(<HotkeyData as ByteConvertable>::decoding);
        reveal(<HotkeyData as ByteConvertable>::encoding);
        let piece_0 = u8::encoding(value.is_skill, None);
        let piece_1 = u32::encoding(value.skill_id, None);
        let piece_2 = SkillLevel::encoding(value.quantity_or_skill_level, None);
        let front_1 = piece_0;
        let front_2 = front_1 + piece_1;
        lemma_holds_at_split(data, at, front_2, piece_2);
        lemma_holds_at_split(data, at, front_1, piece_1);
        u8::lemma_round_trip(value.is_skill, None, data, at);
        u32::lemma_round_trip(value.skill_id, None, data, at + front_1.len());
        SkillLevel::lemma_round_trip(value.quantity_or_skill_level, None, data, at + front_2.len());
    }
}

#[derive(Clone, Debug)]
pub struct UpdateHotkeysPacket {
    pub rotate: u8,
    pub tab: u16,
    pub hotkeys: [HotkeyData; 38],
}

/// What a [`UpdateHotkeysPacket`] stands for.
pub struct UpdateHotkeysPacketModel {
    pub rotate: u8,
    pub tab: u16,
    pub hotkeys: Seq<HotkeyData>,
}

impl Packet for UpdateHotkeysPacket {
    type Model = UpdateHotkeysPacketModel;

    const PACKET_NAME: &'static str = "UpdateHotkeysPacket";

    const IS_PING: bool = false;

    open spec fn model(&self) -> UpdateHotkeysPacketModel {
        UpdateHotkeysPacketModel {
            rotate: self.rotate.model(),
            tab: self.tab.model(),
            hotkeys: models(self.hotkeys@),
        }
    }

    open spec fn packet_header() -> u16 {
        0x0b20
    }

    #[verifier::opaque]
    open spec fn payload_decoding(data: Seq<u8>, at: int) -> Result<
        (UpdateHotkeysPacketModel, nat),
        ConversionError,
    > {
        let rotate = u8::decoding(data, at, None);
        let at_tab = behind(at, rotate);
        let tab = u16::decoding(data, at_tab, None);
        let at_hotkeys = behind(at_tab, tab);
        let hotkeys = repeated_decoding::<HotkeyData>(data, at_hotkeys, 38);
        let behind_all = behind(at_hotkeys, hotkeys);
        if rotate is Err {
            Err(rotate->Err_0)
        } else if tab is Err {
            Err(tab->Err_0)
        } else if hotkeys is Err {
            Err(hotkeys->Err_0)
        } else {
            Ok(
                (
                    UpdateHotkeysPacketModel {
                        rotate: rotate->Ok_0.0,
                        tab: tab->Ok_0.0,
                        hotkeys: hotkeys->Ok_0.0,
                    },
                    (behind_all - at) as nat,
                ),
            )
        }
    }

    open spec fn encodable(value: UpdateHotkeysPacketModel) -> bool {
        &&& all_encodable::<HotkeyData>(value.hotkeys)
        &&& value.hotkeys.len() == 38
    }

    #[verifier::opaque]
    open spec fn payload_encoding(value: UpdateHotkeysPacketModel) -> Seq<u8> {
        u8::encoding(value.rotate, None)
            + u16::encoding(value.tab, None)
            + repeated_encoding::<HotkeyData>(value.hotkeys)
    }

    fn header() -> (header: u16) {
        0x0b20
    }

    fn payload_from_bytes(byte_stream: &mut ByteStream) -> (result: Result<
        Self,
        ConversionError,
    >) {
        proof {
            reveal(<UpdateHotkeysPacket as Packet>::payload_decoding);
        }
        let mut cursor = byte_stream.fork();
        let rotate = u8::from_bytes(&mut cursor, None)?;
        let tab = u16::from_bytes(&mut cursor, None)?;
        let hotkeys = decode_fixed::<HotkeyData, 38>(&mut cursor)?;
        byte_stream.follow(&cursor);
        Ok(UpdateHotkeysPacket { rotate, tab, hotkeys })
    }

    fn payload_to_bytes(&self) -> (bytes: Vec<u8>) {
        proof {
            reveal(<UpdateHotkeysPacket as Packet>::payload_encoding);
        }
        let mut bytes = self.rotate.to_bytes(None);
        let mut piece = self.tab.to_bytes(None);
        bytes.append(&mut piece);
        let mut piece = encode_fixed::<HotkeyData, 38>(&self.hotkeys);
        bytes.append(&mut piece);
        bytes
    }

    proof fn lemma_payload_round_trip(value: UpdateHotkeysPacketModel, data: Seq<u8>, at: int) {
        reveal(<UpdateHotkeysPacket as Packet>::payload_decoding);
        reveal(<UpdateHotkeysPacket as Packet>::payload_encoding);
        let piece_0 = u8::encoding(value.rotate, None);
        let piece_1 = u16::encoding(value.tab, None);
        let piece_2 = repeated_encoding::<HotkeyData>(value.hotkeys);
        let front_1 = piece_0;
        let front_2 = front_1 + piece_1;
        lemma_holds_at_split(data, at, front_2, piece_2);
        lemma_holds_at_split(data, at, front_1, piece_1);
        u8::lemma_round_trip(value.rotate, None, data, at);
        u16::lemma_round_trip(value.tab, None, data, at + front_1.len());
        lemma_repeated_round_trip::<HotkeyData>(value.hotkeys, data, at + front_2.len());
    }
}

#[derive(Clone, Copy, Debug, PartialEq, Eq, Structural)]
pub enum Action {
    Attack,
    PickUpItem,
    SitDown,
    StandUp,
    ContinousAttack,
    /// Unsure what this does
    TouchSkill,
}

impl Action {
    /// The number that stands for a variant on the wire.
    pub open spec fn code(self) -> u8 {
        match self {
            Action::Attack => 0,
            Action::PickUpItem => 1,
            Action::SitDown => 2,
            Action::StandUp => 3,
            Action::ContinousAttack => 7,
            Action::TouchSkill => 12,
        }
    }

    /// The variant that a number stands for.
    pub open spec fn of_code(code: u8) -> Option<Action> {
        if code == 0 {
            Some(Action::Attack)
        } else if code == 1 {
            Some(Action::PickUpItem)
        } else if code == 2 {
            Some(Action::SitDown)
        } else if code == 3 {
            Some(Action::StandUp)
        } else if code == 7 {
            Some(Action::ContinousAttack)
        } else if code == 12 {
            Some(Action::TouchSkill)
        } else {
            None
        }
    }
}

impl ByteConvertable for Action {
    type Model = Action;

    open spec fn model(&self) -> Action {
        *self
    }

    open spec fn accepts(length_hint: Option<usize>) -> bool {
        length_hint is None
    }

    open spec fn decoding(data: Seq<u8>, at: int, length_hint: Option<usize>) -> Result<
        (Action, nat),
        ConversionError,
    > {
        match u8::decoding(data, at, None) {
            Ok((code, length)) => match Action::of_code(code) {
                Some(value) => Ok((value, length)),
                None => Err(ConversionError::Invalid),
            },
            Err(error) => Err(error),
        }
    }

    open spec fn encodable(value: Action, length_hint: Option<usize>) -> bool {
        true
    }

    open spec fn encoding(value: Action, length_hint: Option<usize>) -> Seq<u8> {
        u8::encoding(value.code(), None)
    }

    fn from_bytes(byte_stream: &mut ByteStream, length_hint: Option<usize>) -> (result: Result<
        Self,
        ConversionError,
    >) {
        let mut cursor = byte_stream.fork();
        let code = u8::from_bytes(&mut cursor, None)?;
        let value = match code {
            0 => Action::Attack,
            1 => Action::PickUpItem,
            2 => Action::SitDown,
            3 => Action::StandUp,
            7 => Action::ContinousAttack,
            12 => Action::TouchSkill,
            _ => return Err(ConversionError::Invalid),
        };
        byte_stream.follow(&cursor);
        Ok(value)
    }

    fn to_bytes(&self, length_hint: Option<usize>) -> (bytes: Vec<u8>) {
        let code: u8 = match self {
            Action::Attack => 0,
            Action::PickUpItem => 1,
            Action::SitDown => 2,
            Action::StandUp => 3,
            Action::ContinousAttack => 7,
            Action::TouchSkill => 12,
        };
        code.to_bytes(None)
    }

    proof fn lemma_round_trip(
        value: Action,
        length_hint: Option<usize>,
        data: Seq<u8>,
        at: int,
    ) {
        u8::lemma_round_trip(value.code(), None, data, at);
    }
}

impl FixedByteSize for Action {
    open spec fn size() -> nat {
        1
    }

    fn size_in_bytes() -> (size: usize) {
        1
    }

    proof fn lemma_fixed_size(data: Seq<u8>, at: int, value: Action) {
        assert(Self::size() == 1);
    }
}

#[derive(Clone, Copy, Debug)]
pub struct RequestActionPacket {
    pub npc_id: EntityId,
    pub action: Action,
}

impl RequestActionPacket {
    /// The packet that [`new`](Self::new) makes.
    pub open spec fn made(npc_id: EntityId, action: Action) -> RequestActionPacket {
        RequestActionPacket { npc_id, action }
    }

    pub fn new(npc_id: EntityId, action: Action) -> (packet: Self)
        ensures
            packet.model() == Self::made(npc_id.model(), action.model()),
    {
        let packet = RequestActionPacket { npc_id, action };
        packet
    }
}

impl Packet for RequestActionPacket {
    type Model = RequestActionPacket;

    const PACKET_NAME: &'static str = "RequestActionPacket";

    const IS_PING: bool = false;

    open spec fn model(&self) -> RequestActionPacket {
        *self
    }

    open spec fn packet_header() -> u16 {
        0x0437
    }

    #[verifier::opaque]
    open spec fn payload_decoding(data: Seq<u8>, at: int) -> Result<
        (RequestActionPacket, nat),
        ConversionError,
    > {
        let npc_id = EntityId::decoding(data, at, None);
        let at_action = behind(at, npc_id);
        let action = Action::decoding(data, at_action, None);
        let behind_all = behind(at_action, action);
        if npc_id is Err {
            Err(npc_id->Err_0)
        } else if action is Err {
            Err(action->Err_0)
        } else {
            Ok(
                (
                    RequestActionPacket {
                        npc_id: npc_id->Ok_0.0,
                        action: action->Ok_0.0,
                    },
                    (behind_all - at) as nat,
                ),
            )
        }
    }

    open spec fn encodable(value: RequestActionPacket) -> bool {
        true
    }

    #[verifier::opaque]
    open spec fn payload_encoding(value: RequestActionPacket) -> Seq<u8> {
        EntityId::encoding(value.npc_id, None) + Action::encoding(value.action, None)
    }

    fn header() -> (header: u16) {
        0x0437
    }

    fn payload_from_bytes(byte_stream: &mut ByteStream) -> (result: Result<
        Self,
        ConversionError,
    >) {
        proof {
            reveal(<RequestActionPacket as Packet>::payload_decoding);
        }
        let mut cursor = byte_stream.fork();
        let npc_id = EntityId::from_bytes(&mut cursor, None)?;
        let action = Action::from_bytes(&mut cursor, None)?;
        byte_stream.follow(&cursor);
        Ok(RequestActionPacket { npc_id, action })
    }

    fn payload_to_bytes(&self) -> (bytes: Vec<u8>) {
        proof {
            reveal(<RequestActionPacket as Packet>::payload_encoding);
        }
        let mut bytes = self.npc_id.to_bytes(None);
        let mut piece = self.action.to_bytes(None);
        bytes.append(&mut piece);
        bytes
    }

    proof fn lemma_payload_round_trip(value: RequestActionPacket, data: Seq<u8>, at: int) {
        reveal(<RequestActionPacket as Packet>::payload_decoding);
        reveal(<RequestActionPacket as Packet>::payload_encoding);
        let piece_0 = EntityId::encoding(value.npc_id, None);
        let piece_1 = Action::encoding(value.action, None);
        let front_1 = piece_0;
        lemma_holds_at_split(data, at, front_1, piece_1);
        EntityId::lemma_round_trip(value.npc_id, None, data, at);
        Action::lemma_round_trip(value.action, None, data, at + front_1.len());
    }
}

#[derive(Clone, Copy, Debug)]
pub struct RequestPlayerAttackFailedPacket {
    pub target_entity_id: EntityId,
    pub target_position: Vector2<u16>,
    pub position: Vector2<u16>,
    pub attack_range: u16,
}

impl Packet for RequestPlayerAttackFailedPacket {
    type Model = RequestPlayerAttackFailedPacket;

    const PACKET_NAME: &'static str = "RequestPlayerAttackFailedPacket";

    const IS_PING: bool = false;

    open spec fn model(&self) -> RequestPlayerAttackFailedPacket {
        *self
    }

    open spec fn packet_header() -> u16 {
        0x0139
    }

    #[verifier::opaque]
    open spec fn payload_decoding(data: Seq<u8>, at: int) -> Result<
        (RequestPlayerAttackFailedPacket, nat),
        ConversionError,
    > {
        let target_entity_id = EntityId::decoding(data, at, None);
        let at_target_position = behind(at, target_entity_id);
        let target_position = Vector2::<u16>::decoding(data, at_target_position, None);
        let at_position = behind(at_target_position, target_position);
        let position = Vector2::<u16>::decoding(data, at_position, None);
        let at_attack_range = behind(at_position, position);
        let attack_range = u16::decoding(data, at_attack_range, None);
        let behind_all = behind(at_attack_range, attack_range);
        if target_entity_id is Err {
            Err(target_entity_id->Err_0)
        } else if target_position is Err {
            Err(target_position->Err_0)
        } else if position is Err {
            Err(position->Err_0)
        } else if attack_range is Err {
            Err(attack_range->Err_0)
        } else {
            Ok(
                (
                    RequestPlayerAttackFailedPacket {
                        target_entity_id: target_entity_id->Ok_0.0,
                        target_position: target_position->Ok_0.0,
                        position: position->Ok_0.0,
                        attack_range: attack_range->Ok_0.0,
                    },
                    (behind_all - at) as nat,
                ),
            )
        }
    }

    open spec fn encodable(value: RequestPlayerAttackFailedPacket) -> bool {
        true
    }

    #[verifier::opaque]
    open spec fn payload_encoding(value: RequestPlayerAttackFailedPacket) -> Seq<u8> {
        EntityId::encoding(value.target_entity_id, None)
            + Vector2::<u16>::encoding(value.target_position, None)
            + Vector2::<u16>::encoding(value.position, None)
            + u16::encoding(value.attack_range, None)
    }

    fn header() -> (header: u16) {
        0x0139
    }

    fn payload_from_bytes(byte_stream: &mut ByteStream) -> (result: Result<
        Self,
        ConversionError,
    >) {
        proof {
            reveal(<RequestPlayerAttackFailedPacket as Packet>::payload_decoding);
        }
        let mut cursor = byte_stream.fork();
        let target_entity_id = EntityId::from_bytes(&mut cursor, None)?;
        let target_position = Vector2::<u16>::from_bytes(&mut cursor, None)?;
        let position = Vector2::<u16>::from_bytes(&mut cursor, None)?;
        let attack_range = u16::from_bytes(&mut cursor, None)?;
        byte_stream.follow(&cursor);
        Ok(RequestPlayerAttackFailedPacket {
            target_entity_id,
            target_position,
            position,
            attack_range,
        })
    }

    fn payload_to_bytes(&self) -> (bytes: Vec<u8>) {
        proof {
            reveal(<RequestPlayerAttackFailedPacket as Packet>::payload_encoding);
        }
        let mut bytes = self.target_entity_id.to_bytes(None);
        let mut piece = self.target_position.to_bytes(None);
        bytes.append(&mut piece);
        let mut piece = self.position.to_bytes(None);
        bytes.append(&mut piece);
        let mut piece = self.attack_range.to_bytes(None);
        bytes.append(&mut piece);
        bytes
    }

    proof fn lemma_payload_round_trip(
        value: RequestPlayerAttackFailedPacket,
        data: Seq<u8>,
        at: int,
    ) {
        reveal(<RequestPlayerAttackFailedPacket as Packet>::payload_decoding);
        reveal(<RequestPlayerAttackFailedPacket as Packet>::payload_encoding);
        let piece_0 = EntityId::encoding(value.target_entity_id, None);
        let piece_1 = Vector2::<u16>::encoding(value.target_position, None);
        let piece_2 = Vector2::<u16>::encoding(value.position, None);
        let piece_3 = u16::encoding(value.attack_range, None);
        let front_1 = piece_0;
        let front_2 = front_1 + piece_1;
        let front_3 = front_2 + piece_2;
        lemma_holds_at_split(data, at, front_3, piece_3);
        lemma_holds_at_split(data, at, front_2, piece_2);
        lemma_holds_at_split(data, at, front_1, piece_1);
        EntityId::lemma_round_trip(value.target_entity_id, None, data, at);
        Vector2::<u16>::lemma_round_trip(value.target_position, None, data, at + front_1.len());
        Vector2::<u16>::lemma_round_trip(value.position, None, data, at + front_2.len());
        u16::lemma_round_trip(value.attack_range, None, data, at + front_3.len());
    }
}

#[derive(Clone, Copy, Debug)]
pub struct DamagePacket {
    pub source_entity_id: EntityId,
    pub destination_entity_id: EntityId,
    pub client_tick: ClientTick,
    pub source_movement_speed: u32,
    pub destination_movement_speed: u32,
    pub damage_amount: u32,
    pub is_special_damage: u8,
    pub amount_of_hits: u16,
    pub damage_type: u8,
    /// Assassin dual wield damage
    pub damage_amount2: u32,
}

impl Packet for DamagePacket {
    type Model = DamagePacket;

    const PACKET_NAME: &'static str = "DamagePacket";

    const IS_PING: bool = false;

    open spec fn model(&self) -> DamagePacket {
        *self
    }

    open spec fn packet_header() -> u16 {
        0x08c8
    }

    #[verifier::opaque]
    open spec fn payload_decoding(data: Seq<u8>, at: int) -> Result<
        (DamagePacket, nat),
        ConversionError,
    > {
        let source_entity_id = EntityId::decoding(data, at, None);
        let at_destination_entity_id = behind(at, source_entity_id);
        let destination_entity_id = EntityId::decoding(data, at_destination_entity_id, None);
        let at_client_tick = behind(at_destination_entity_id, destination_entity_id);
        let client_tick = ClientTick::decoding(data, at_client_tick, None);
        let at_source_movement_speed = behind(at_client_tick, client_tick);
        let source_movement_speed = u32::decoding(data, at_source_movement_speed, None);
        let at_destination_movement_speed = behind(at_source_movement_speed, source_movement_speed);
        let destination_movement_speed = u32::decoding(data, at_destination_movement_speed, None);
        let at_damage_amount = behind(at_destination_movement_speed, destination_movement_speed);
        let damage_amount = u32::decoding(data, at_damage_amount, None);
        let at_is_special_damage = behind(at_damage_amount, damage_amount);
        let is_special_damage = u8::decoding(data, at_is_special_damage, None);
        let at_amount_of_hits = behind(at_is_special_damage, is_special_damage);
        let amount_of_hits = u16::decoding(data, at_amount_of_hits, None);
        let at_damage_type = behind(at_amount_of_hits, amount_of_hits);
        let damage_type = u8::decoding(data, at_damage_type, None);
        let at_damage_amount2 = behind(at_damage_type, damage_type);
        let damage_amount2 = u32::decoding(data, at_damage_amount2, None);
        let behind_all = behind(at_damage_amount2, damage_amount2);
        if source_entity_id is Err {
            Err(source_entity_id->Err_0)
        } else if destination_entity_id is Err {
            Err(destination_entity_id->Err_0)
        } else if client_tick is Err {
            Err(client_tick->Err_0)
        } else if source_movement_speed is Err {
            Err(source_movement_speed->Err_0)
        } else if destination_movement_speed is Err {
            Err(destination_movement_speed->Err_0)
        } else if damage_amount is Err {
            Err(damage_amount->Err_0)
        } else if is_special_damage is Err {
            Err(is_special_damage->Err_0)
        } else if amount_of_hits is Err {
            Err(amount_of_hits->Err_0)
        } else if damage_type is Err {
            Err(damage_type->Err_0)
        } else if damage_amount2 is Err {
            Err(damage_amount2->Err_0)
        } else {
            Ok(
                (
                    DamagePacket {
                        source_entity_id: source_entity_id->Ok_0.0,
                        destination_entity_id: destination_entity_id->Ok_0.0,
                        client_tick: client_tick->Ok_0.0,
                        source_movement_speed: source_movement_speed->Ok_0.0,
                        destination_movement_speed: destination_movement_speed->Ok_0.0,
                        damage_amount: damage_amount->Ok_0.0,
                        is_special_damage: is_special_damage->Ok_0.0,
                        amount_of_hits: amount_of_hits->Ok_0.0,
                        damage_type: damage_type->Ok_0.0,
                        damage_amount2: damage_amount2->Ok_0.0,
                    },
                    (behind_all - at) as nat,
                ),
            )
        }
    }

    open spec fn encodable(value: DamagePacket) -> bool {
        true
    }

    #[verifier::opaque]
    open spec fn payload_encoding(value: DamagePacket) -> Seq<u8> {
        EntityId::encoding(value.source_entity_id, None)
            + EntityId::encoding(value.destination_entity_id, None)
            + ClientTick::encoding(value.client_tick, None)
            + u32::encoding(value.source_movement_speed, None)
            + u32::encoding(value.destination_movement_speed, None)
            + u32::encoding(value.damage_amount, None)
            + u8::encoding(value.is_special_damage, None)
            + u16::encoding(value.amount_of_hits, None)
            + u8::encoding(value.damage_type, None)
            + u32::encoding(value.damage_amount2, None)
    }

    fn header() -> (header: u16) {
        0x08c8
    }

    #[verifier::rlimit(40)]
    fn payload_from_bytes(byte_stream: &mut ByteStream) -> (result: Result<
        Self,
        ConversionError,
    >) {
        proof {
            reveal(<DamagePacket as Packet>::payload_decoding);
        }
        let mut cursor = byte_stream.fork();
        let source_entity_id = EntityId::from_bytes(&mut cursor, None)?;
        let destination_entity_id = EntityId::from_bytes(&mut cursor, None)?;
        let client_tick = ClientTick::from_bytes(&mut cursor, None)?;
        let source_movement_speed = u32::from_bytes(&mut cursor, None)?;
        let destination_movement_speed = u32::from_bytes(&mut cursor, None)?;
        let damage_amount = u32::from_bytes(&mut cursor, None)?;
        let is_special_damage = u8::from_bytes(&mut cursor, None)?;
        let amount_of_hits = u16::from_bytes(&mut cursor, None)?;
        let damage_type = u8::from_bytes(&mut cursor, None)?;
        let damage_amount2 = u32::from_bytes(&mut cursor, None)?;
        byte_stream.follow(&cursor);
        Ok(DamagePacket {
            source_entity_id,
            destination_entity_id,
            client_tick,
            source_movement_speed,
            destination_movement_speed,
            damage_amount,
            is_special_damage,
            amount_of_hits,
            damage_type,
            damage_amount2,
        })
    }

    fn payload_to_bytes(&self) -> (bytes: Vec<u8>) {
        proof {
            reveal(<DamagePacket as Packet>::payload_encoding);
        }
        let mut bytes = self.source_entity_id.to_bytes(None);
        let mut piece = self.destination_entity_id.to_bytes(None);
        bytes.append(&mut piece);
        let mut piece = self.client_tick.to_bytes(None);
        bytes.append(&mut piece);
        let mut piece = self.source_movement_speed.to_bytes(None);
        bytes.append(&mut piece);
        let mut piece = self.destination_movement_speed.to_bytes(None);
        bytes.append(&mut piece);
        let mut piece = self.damage_amount.to_bytes(None);
        bytes.append(&mut piece);
        let mut piece = self.is_special_damage.to_bytes(None);
        bytes.append(&mut piece);
        let mut piece = self.amount_of_hits.to_bytes(None);
        bytes.append(&mut piece);
        let mut piece = self.damage_type.to_bytes(None);
        bytes.append(&mut piece);
        let mut piece = self.damage_amount2.to_bytes(None);
        bytes.append(&mut piece);
        bytes
    }

    #[verifier::rlimit(40)]
    proof fn lemma_payload_round_trip(value: DamagePacket, data: Seq<u8>, at: int) {
        reveal(<DamagePacket as Packet>::payload_decoding);
        reveal(<DamagePacket as Packet>::payload_encoding);
        let piece_0 = EntityId::encoding(value.source_entity_id, None);
        let piece_1 = EntityId::encoding(value.destination_entity_id, None);
        let piece_2 = ClientTick::encoding(value.client_tick, None);
        let piece_3 = u32::encoding(value.source_movement_speed, None);
        let piece_4 = u32::encoding(value.destination_movement_speed, None);
        let piece_5 = u32::encoding(value.damage_amount, None);
        let piece_6 = u8::encoding(value.is_special_damage, None);
        let piece_7 = u16::encoding(value.amount_of_hits, None);
        let piece_8 = u8::encoding(value.damage_type, None);
        let piece_9 = u32::encoding(value.damage_amount2, None);
        let front_1 = piece_0;
        let front_2 = front_1 + piece_1;
        let front_3 = front_2 + piece_2;
        let front_4 = front_3 + piece_3;
        let front_5 = front_4 + piece_4;
        let front_6 = front_5 + piece_5;
        let front_7 = front_6 + piece_6;
        let front_8 = front_7 + piece_7;
        let front_9 = front_8 + piece_8;
        lemma_holds_at_split(data, at, front_9, piece_9);
        lemma_holds_at_split(data, at, front_8, piece_8);
        lemma_holds_at_split(data, at, front_7, piece_7);
        lemma_holds_at_split(data, at, front_6, piece_6);
        lemma_holds_at_split(data, at, front_5, piece_5);
        lemma_holds_at_split(data, at, front_4, piece_4);
        lemma_holds_at_split(data, at, front_3, piece_3);
        lemma_holds_at_split(data, at, front_2, piece_2);
        lemma_holds_at_split(data, at, front_1, piece_1);
        EntityId::lemma_round_trip(value.source_entity_id, None, data, at);
        EntityId::lemma_round_trip(value.destination_entity_id, None, data, at + front_1.len());
        ClientTick::lemma_round_trip(value.client_tick, None, data, at + front_2.len());
        u32::lemma_round_trip(value.source_movement_speed, None, data, at + front_3.len());
        u32::lemma_round_trip(value.destination_movement_speed, None, data, at + front_4.len());
        u32::lemma_round_trip(value.damage_amount, None, data, at + front_5.len());
        u8::lemma_round_trip(value.is_special_damage, None, data, at + front_6.len());
        u16::lemma_round_trip(value.amount_of_hits, None, data, at + front_7.len());
        u8::lemma_round_trip(value.damage_type, None, data, at + front_8.len());
        u32::lemma_round_trip(value.damage_amount2, None, data, at + front_9.len());
    }
}

#[derive(Clone, Copy, Debug)]
pub struct DisplaySkillCooldownPacket {
    pub skill_id: SkillId,
    pub until: ClientTick,
}

impl Packet for DisplaySkillCooldownPacket {
    type Model = DisplaySkillCooldownPacket;

    const PACKET_NAME: &'static str = "DisplaySkillCooldownPacket";

    const IS_PING: bool = false;

    open spec fn model(&self) -> DisplaySkillCooldownPacket {
        *self
    }

    open spec fn packet_header() -> u16 {
        0x043d
    }

    #[verifier::opaque]
    open spec fn payload_decoding(data: Seq<u8>, at: int) -> Result<
        (DisplaySkillCooldownPacket, nat),
        ConversionError,
    > {
        let skill_id = SkillId::decoding(data, at, None);
        let at_until = behind(at, skill_id);
        let until = ClientTick::decoding(data, at_until, None);
        let behind_all = behind(at_until, until);
        if skill_id is Err {
            Err(skill_id->Err_0)
        } else if until is Err {
            Err(until->Err_0)
        } else {
            Ok(
                (
                    DisplaySkillCooldownPacket {
                        skill_id: skill_id->Ok_0.0,
                        until: until->Ok_0.0,
                    },
                    (behind_all - at) as nat,
                ),
            )
        }
    }

    open spec fn encodable(value: DisplaySkillCooldownPacket) -> bool {
        true
    }

    #[verifier::opaque]
    open spec fn payload_encoding(value: DisplaySkillCooldownPacket) -> Seq<u8> {
        SkillId::encoding(value.skill_id, None) + ClientTick::encoding(value.until, None)
    }

    fn header() -> (header: u16) {
        0x043d
    }

    fn payload_from_bytes(byte_stream: &mut ByteStream) -> (result: Result<
        Self,
        ConversionError,
    >) {
        proof {
            reveal(<DisplaySkillCooldownPacket as Packet>::payload_decoding);
        }
        let mut cursor = byte_stream.fork();
        let skill_id = SkillId::from_bytes(&mut cursor, None)?;
        let until = ClientTick::from_bytes(&mut cursor, None)?;
        byte_stream.follow(&cursor);
        Ok(DisplaySkillCooldownPacket { skill_id, until })
    }

    fn payload_to_bytes(&self) -> (bytes: Vec<u8>) {
        proof {
            reveal(<DisplaySkillCooldownPacket as Packet>::payload_encoding);
        }
        let mut bytes = self.skill_id.to_bytes(None);
        let mut piece = self.until.to_bytes(None);
        bytes.append(&mut piece);
        bytes
    }

    proof fn lemma_payload_round_trip(value: DisplaySkillCooldownPacket, data: Seq<u8>, at: int) {
        reveal(<DisplaySkillCooldownPacket as Packet>::payload_decoding);
        reveal(<DisplaySkillCooldownPacket as Packet>::payload_encoding);
        let piece_0 = SkillId::encoding(value.skill_id, None);
        let piece_1 = ClientTick::encoding(value.until, None);
        let front_1 = piece_0;
        lemma_holds_at_split(data, at, front_1, piece_1);
        SkillId::lemma_round_trip(value.skill_id, None, data, at);
        ClientTick::lemma_round_trip(value.until, None, data, at + front_1.len());
    }
}

#[derive(Clone, Copy, Debug)]
pub struct DisplaySkillEffectAndDamagePacket {
    pub skill_id: SkillId,
    pub source_entity_id: EntityId,
    pub destination_entity_id: EntityId,
    pub start_time: ClientTick,
    pub soruce_delay: u32,
    pub destination_delay: u32,
    pub damage: u32,
    pub level: SkillLevel,
    pub div: u16,
    pub skill_type: u8,
}

impl Packet for DisplaySkillEffectAndDamagePacket {
    type Model = DisplaySkillEffectAndDamagePacket;

    const PACKET_NAME: &'static str = "DisplaySkillEffectAndDamagePacket";

    const IS_PING: bool = false;

    open spec fn model(&self) -> DisplaySkillEffectAndDamagePacket {
        *self
    }

    open spec fn packet_header() -> u16 {
        0x01de
    }

    #[verifier::opaque]
    open spec fn payload_decoding(data: Seq<u8>, at: int) -> Result<
        (DisplaySkillEffectAndDamagePacket, nat),
        ConversionError,
    > {
        let skill_id = SkillId::decoding(data, at, None);
        let at_source_entity_id = behind(at, skill_id);
        let source_entity_id = EntityId::decoding(data, at_source_entity_id, None);
        let at_destination_entity_id = behind(at_source_entity_id, source_entity_id);
        let destination_entity_id = EntityId::decoding(data, at_destination_entity_id, None);
        let at_start_time = behind(at_destination_entity_id, destination_entity_id);
        let start_time = ClientTick::decoding(data, at_start_time, None);
        let at_soruce_delay = behind(at_start_time, start_time);
        let soruce_delay = u32::decoding(data, at_soruce_delay, None);
        let at_destination_delay = behind(at_soruce_delay, soruce_delay);
        let destination_delay = u32::decoding(data, at_destination_delay, None);
        let at_damage = behind(at_destination_delay, destination_delay);
        let damage = u32::decoding(data, at_damage, None);
        let at_level = behind(at_damage, damage);
        let level = SkillLevel::decoding(data, at_level, None);
        let at_div = behind(at_level, level);
        let div = u16::decoding(data, at_div, None);
        let at_skill_type = behind(at_div, div);
        let skill_type = u8::decoding(data, at_skill_type, None);
        let behind_all = behind(at_skill_type, skill_type);
        if skill_id is Err {
            Err(skill_id->Err_0)
        } else if source_entity_id is Err {
            Err(source_entity_id->Err_0)
        } else if destination_entity_id is Err {
            Err(destination_entity_id->Err_0)
        } else if start_time is Err {
            Err(start_time->Err_0)
        } else if soruce_delay is Err {
            Err(soruce_delay->Err_0)
        } else if destination_delay is Err {
            Err(destination_delay->Err_0)
        } else if damage is Err {
            Err(damage->Err_0)
        } else if level is Err {
            Err(level->Err_0)
        } else if div is Err {
            Err(div->Err_0)
        } else if skill_type is Err {
            Err(skill_type->Err_0)
        } else {
            Ok(
                (
                    DisplaySkillEffectAndDamagePacket {
                        skill_id: skill_id->Ok_0.0,
                        source_entity_id: source_entity_id->Ok_0.0,
                        destination_entity_id: destination_entity_id->Ok_0.0,
                        start_time: start_time->Ok_0.0,
                        soruce_delay: soruce_delay->Ok_0.0,
                        destination_delay: destination_delay->Ok_0.0,
                        damage: damage->Ok_0.0,
                        level: level->Ok_0.0,
                        div: div->Ok_0.0,
                        skill_type: skill_type->Ok_0.0,
                    },
                    (behind_all - at) as nat,
                ),
            )
        }
    }

    open spec fn encodable(value: DisplaySkillEffectAndDamagePacket) -> bool {
        true
    }

    #[verifier::opaque]
    open spec fn payload_encoding(value: DisplaySkillEffectAndDamagePacket) -> Seq<u8> {
        SkillId::encoding(value.skill_id, None)
            + EntityId::encoding(value.source_entity_id, None)
            + EntityId::encoding(value.destination_entity_id, None)
            + ClientTick::encoding(value.start_time, None)
            + u32::encoding(value.soruce_delay, None)
            + u32::encoding(value.destination_delay, None)
            + u32::encoding(value.damage, None)
            + SkillLevel::encoding(value.level, None)
            + u16::encoding(value.div, None)
            + u8::encoding(value.skill_type, None)
    }

    fn header() -> (header: u16) {
        0x01de
    }

    #[verifier::rlimit(40)]
    fn payload_from_bytes(byte_stream: &mut ByteStream) -> (result: Result<
        Self,
        ConversionError,
    >) {
        proof {
            reveal(<DisplaySkillEffectAndDamagePacket as Packet>::payload_decoding);
        }
        let mut cursor = byte_stream.fork();
        let skill_id = SkillId::from_bytes(&mut cursor, None)?;
        let source_entity_id = EntityId::from_bytes(&mut cursor, None)?;
        let destination_entity_id = EntityId::from_bytes(&mut cursor, None)?;
        let start_time = ClientTick::from_bytes(&mut cursor, None)?;
        let soruce_delay = u32::from_bytes(&mut cursor, None)?;
        let destination_delay = u32::from_bytes(&mut cursor, None)?;
        let damage = u32::from_bytes(&mut cursor, None)?;
        let level = SkillLevel::from_bytes(&mut cursor, None)?;
        let div = u16::from_bytes(&mut cursor, None)?;
        let skill_type = u8::from_bytes(&mut cursor, None)?;
        byte_stream.follow(&cursor);
        Ok(DisplaySkillEffectAndDamagePacket {
            skill_id,
            source_entity_id,
            destination_entity_id,
            start_time,
            soruce_delay,
            destination_delay,
            damage,
            level,
            div,
            skill_type,
        })
    }

    fn payload_to_bytes(&self) -> (bytes: Vec<u8>) {
        proof {
            reveal(<DisplaySkillEffectAndDamagePacket as Packet>::payload_encoding);
        }
        let mut bytes = self.skill_id.to_bytes(None);
        let mut piece = self.source_entity_id.to_bytes(None);
        bytes.append(&mut piece);
        let mut piece = self.destination_entity_id.to_bytes(None);
        bytes.append(&mut piece);
        let mut piece = self.start_time.to_bytes(None);
        bytes.append(&mut piece);
        let mut piece = self.soruce_delay.to_bytes(None);
        bytes.append(&mut piece);
        let mut piece = self.destination_delay.to_bytes(None);
        bytes.append(&mut piece);
        let mut piece = self.damage.to_bytes(None);
        bytes.append(&mut piece);
        let mut piece = self.level.to_bytes(None);
        bytes.append(&mut piece);
        let mut piece = self.div.to_bytes(None);
        bytes.append(&mut piece);
        let mut piece = self.skill_type.to_bytes(None);
        bytes.append(&mut piece);
        bytes
    }

    #[verifier::rlimit(40)]
    proof fn lemma_payload_round_trip(
        value: DisplaySkillEffectAndDamagePacket,
        data: Seq<u8>,
        at: int,
    ) {
        reveal(<DisplaySkillEffectAndDamagePacket as Packet>::payload_decoding);
        reveal(<DisplaySkillEffectAndDamagePacket as Packet>::payload_encoding);
        let piece_0 = SkillId::encoding(value.skill_id, None);
        let piece_1 = EntityId::encoding(value.source_entity_id, None);
        let piece_2 = EntityId::encoding(value.destination_entity_id, None);
        let piece_3 = ClientTick::encoding(value.start_time, None);
        let piece_4 = u32::encoding(value.soruce_delay, None);
        let piece_5 = u32::encoding(value.destination_delay, None);
        let piece_6 = u32::encoding(value.damage, None);
        let piece_7 = SkillLevel::encoding(value.level, None);
        let piece_8 = u16::encoding(value.div, None);
        let piece_9 = u8::encoding(value.skill_type, None);
        let front_1 = piece_0;
        let front_2 = front_1 + piece_1;
        let front_3 = front_2 + piece_2;
        let front_4 = front_3 + piece_3;
        let front_5 = front_4 + piece_4;
        let front_6 = front_5 + piece_5;
        let front_7 = front_6 + piece_6;
        let front_8 = front_7 + piece_7;
        let front_9 = front_8 + piece_8;
        lemma_holds_at_split(data, at, front_9, piece_9);
        lemma_holds_at_split(data, at, front_8, piece_8);
        lemma_holds_at_split(data, at, front_7, piece_7);
        lemma_holds_at_split(data, at, front_6, piece_6);
        lemma_holds_at_split(data, at, front_5, piece_5);
        lemma_holds_at_split(data, at, front_4, piece_4);
        lemma_holds_at_split(data, at, front_3, piece_3);
        lemma_holds_at_split(data, at, front_2, piece_2);
        lemma_holds_at_split(data, at, front_1, piece_1);
        SkillId::lemma_round_trip(value.skill_id, None, data, at);
        EntityId::lemma_round_trip(value.source_entity_id, None, data, at + front_1.len());
        EntityId::lemma_round_trip(value.destination_entity_id, None, data, at + front_2.len());
        ClientTick::lemma_round_trip(value.start_time, None, data, at + front_3.len());
        u32::lemma_round_trip(value.soruce_delay, None, data, at + front_4.len());
        u32::lemma_round_trip(value.destination_delay, None, data, at + front_5.len());
        u32::lemma_round_trip(value.damage, None, data, at + front_6.len());
        SkillLevel::lemma_round_trip(value.level, None, data, at + front_7.len());
        u16::lemma_round_trip(value.div, None, data, at + front_8.len());
        u8::lemma_round_trip(value.skill_type, None, data, at + front_9.len());
    }
}

#[derive(Clone, Copy, Debug, PartialEq, Eq, Structural)]
pub enum HealType {
    Health,
    SpellPoints,
}

impl HealType {
    /// The number that stands for a variant on the wire.
    pub open spec fn code(self) -> u16 {
        match self {
            HealType::Health => 5,
            HealType::SpellPoints => 7,
        }
    }

    /// The variant that a number stands for.
    pub open spec fn of_code(code: u16) -> Option<HealType> {
        if code == 5 {
            Some(HealType::Health)
        } else if code == 7 {
            Some(HealType::SpellPoints)
        } else {
            None
        }
    }
}

impl ByteConvertable for HealType {
    type Model = HealType;

    open spec fn model(&self) -> HealType {
        *self
    }

    open spec fn accepts(length_hint: Option<usize>) -> bool {
        length_hint is None
    }

    open spec fn decoding(data: Seq<u8>, at: int, length_hint: Option<usize>) -> Result<
        (HealType, nat),
        ConversionError,
    > {
        match u16::decoding(data, at, None) {
            Ok((code, length)) => match HealType::of_code(code) {
                Some(value) => Ok((value, length)),
                None => Err(ConversionError::Invalid),
            },
            Err(error) => Err(error),
        }
    }

    open spec fn encodable(value: HealType, length_hint: Option<usize>) -> bool {
        true
    }

    open spec fn encoding(value: HealType, length_hint: Option<usize>) -> Seq<u8> {
        u16::encoding(value.code(), None)
    }

    fn from_bytes(byte_stream: &mut ByteStream, length_hint: Option<usize>) -> (result: Result<
        Self,
        ConversionError,
    >) {
        let mut cursor = byte_stream.fork();
        let code = u16::from_bytes(&mut cursor, None)?;
        let value = match code {
            5 => HealType::Health,
            7 => HealType::SpellPoints,
            _ => return Err(ConversionError::Invalid),
        };
        byte_stream.follow(&cursor);
        Ok(value)
    }

    fn to_bytes(&self, length_hint: Option<usize>) -> (bytes: Vec<u8>) {
        let code: u16 = match self {
            HealType::Health => 5,
            HealType::SpellPoints => 7,
        };
        code.to_bytes(None)
    }

    proof fn lemma_round_trip(
        value: HealType,
        length_hint: Option<usize>,
        data: Seq<u8>,
        at: int,
    ) {
        u16::lemma_round_trip(value.code(), None, data, at);
    }
}

impl FixedByteSize for HealType {
    open spec fn size() -> nat {
        2
    }

    fn size_in_bytes() -> (size: usize) {
        2
    }

    proof fn lemma_fixed_size(data: Seq<u8>, at: int, value: HealType) {
        assert(Self::size() == 2);
    }
}

#[derive(Clone, Copy, Debug)]
pub struct DisplayPlayerHealEffect {
    pub heal_type: HealType,
    pub heal_amount: u32,
}

impl Packet for DisplayPlayerHealEffect {
    type Model = DisplayPlayerHealEffect;

    const PACKET_NAME: &'static str = "DisplayPlayerHealEffect";

    const IS_PING: bool = false;

    open spec fn model(&self) -> DisplayPlayerHealEffect {
        *self
    }

    open spec fn packet_header() -> u16 {
        0x0a27
    }

    #[verifier::opaque]
    open spec fn payload_decoding(data: Seq<u8>, at: int) -> Result<
        (DisplayPlayerHealEffect, nat),
        ConversionError,
    > {
        let heal_type = HealType::decoding(data, at, None);
        let at_heal_amount = behind(at, heal_type);
        let heal_amount = u32::decoding(data, at_heal_amount, None);
        let behind_all = behind(at_heal_amount, heal_amount);
        if heal_type is Err {
            Err(heal_type->Err_0)
        } else if heal_amount is Err {
            Err(heal_amount->Err_0)
        } else {
            Ok(
                (
                    DisplayPlayerHealEffect {
                        heal_type: heal_type->Ok_0.0,
                        heal_amount: heal_amount->Ok_0.0,
                    },
                    (behind_all - at) as nat,
                ),
            )
        }
    }

    open spec fn encodable(value: DisplayPlayerHealEffect) -> bool {
        true
    }

    #[verifier::opaque]
    open spec fn payload_encoding(value: DisplayPlayerHealEffect) -> Seq<u8> {
        HealType::encoding(value.heal_type, None) + u32::encoding(value.heal_amount, None)
    }

    fn header() -> (header: u16) {
        0x0a27
    }

    fn payload_from_bytes(byte_stream: &mut ByteStream) -> (result: Result<
        Self,
        ConversionError,
    >) {
        proof {
            reveal(<DisplayPlayerHealEffect as Packet>::payload_decoding);
        }
        let mut cursor = byte_stream.fork();
        let heal_type = HealType::from_bytes(&mut cursor, None)?;
        let heal_amount = u32::from_bytes(&mut cursor, None)?;
        byte_stream.follow(&cursor);
        Ok(DisplayPlayerHealEffect { heal_type, heal_amount })
    }

    fn payload_to_bytes(&self) -> (bytes: Vec<u8>) {
        proof {
            reveal(<DisplayPlayerHealEffect as Packet>::payload_encoding);
        }
        let mut bytes = self.heal_type.to_bytes(None);
        let mut piece = self.heal_amount.to_bytes(None);
        bytes.append(&mut piece);
        bytes
    }

    proof fn lemma_payload_round_trip(value: DisplayPlayerHealEffect, data: Seq<u8>, at: int) {
        reveal(<DisplayPlayerHealEffect as Packet>::payload_decoding);
        reveal(<DisplayPlayerHealEffect as Packet>::payload_encoding);
        let piece_0 = HealType::encoding(value.heal_type, None);
        let piece_1 = u32::encoding(value.heal_amount, None);
        let front_1 = piece_0;
        lemma_holds_at_split(data, at, front_1, piece_1);
        HealType::lemma_round_trip(value.heal_type, None, data, at);
        u32::lemma_round_trip(value.heal_amount, None, data, at + front_1.len());
    }
}

#[derive(Clone, Copy, Debug)]
pub struct DisplaySkillEffectNoDamagePacket {
    pub skill_id: SkillId,
    pub heal_amount: u32,
    pub destination_entity_id: EntityId,
    pub source_entity_id: EntityId,
    pub result: u8,
}

impl Packet for DisplaySkillEffectNoDamagePacket {
    type Model = DisplaySkillEffectNoDamagePacket;

    const PACKET_NAME: &'static str = "DisplaySkillEffectNoDamagePacket";

    const IS_PING: bool = false;

    open spec fn model(&self) -> DisplaySkillEffectNoDamagePacket {
        *self
    }

    open spec fn packet_header() -> u16 {
        0x09cb
    }

    #[verifier::opaque]
    open spec fn payload_decoding(data: Seq<u8>, at: int) -> Result<
        (DisplaySkillEffectNoDamagePacket, nat),
        ConversionError,
    > {
        let skill_id = SkillId::decoding(data, at, None);
        let at_heal_amount = behind(at, skill_id);
        let heal_amount = u32::decoding(data, at_heal_amount, None);
        let at_destination_entity_id = behind(at_heal_amount, heal_amount);
        let destination_entity_id = EntityId::decoding(data, at_destination_entity_id, None);
        let at_source_entity_id = behind(at_destination_entity_id, destination_entity_id);
        let source_entity_id = EntityId::decoding(data, at_source_entity_id, None);
        let at_result_field = behind(at_source_entity_id, source_entity_id);
        let result_field = u8::decoding(data, at_result_field, None);
        let behind_all = behind(at_result_field, result_field);
        if skill_id is Err {
            Err(skill_id->Err_0)
        } else if heal_amount is Err {
            Err(heal_amount->Err_0)
        } else if destination_entity_id is Err {
            Err(destination_entity_id->Err_0)
        } else if source_entity_id is Err {
            Err(source_entity_id->Err_0)
        } else if result_field is Err {
            Err(result_field->Err_0)
        } else {
            Ok(
                (
                    DisplaySkillEffectNoDamagePacket {
                        skill_id: skill_id->Ok_0.0,
                        heal_amount: heal_amount->Ok_0.0,
                        destination_entity_id: destination_entity_id->Ok_0.0,
                        source_entity_id: source_entity_id->Ok_0.0,
                        result: result_field->Ok_0.0,
                    },
                    (behind_all - at) as nat,
                ),
            )
        }
    }

    open spec fn encodable(value: DisplaySkillEffectNoDamagePacket) -> bool {
        true
    }

    #[verifier::opaque]
    open spec fn payload_encoding(value: DisplaySkillEffectNoDamagePacket) -> Seq<u8> {
        SkillId::encoding(value.skill_id, None)
            + u32::encoding(value.heal_amount, None)
            + EntityId::encoding(value.destination_entity_id, None)
            + EntityId::encoding(value.source_entity_id, None)
            + u8::encoding(value.result, None)
    }

    fn header() -> (header: u16) {
        0x09cb
    }

    fn payload_from_bytes(byte_stream: &mut ByteStream) -> (result: Result<
        Self,
        ConversionError,
    >) {
        proof {
            reveal(<DisplaySkillEffectNoDamagePacket as Packet>::payload_decoding);
        }
        let mut cursor = byte_stream.fork();
        let skill_id = SkillId::from_bytes(&mut cursor, None)?;
        let heal_amount = u32::from_bytes(&mut cursor, None)?;
        let destination_entity_id = EntityId::from_bytes(&mut cursor, None)?;
        let source_entity_id = EntityId::from_bytes(&mut cursor, None)?;
        let result_field = u8::from_bytes(&mut cursor, None)?;
        byte_stream.follow(&cursor);
        Ok(DisplaySkillEffectNoDamagePacket {
            skill_id,
            heal_amount,
            destination_entity_id,
            source_entity_id,
            result: result_field,
        })
    }

    fn payload_to_bytes(&self) -> (bytes: Vec<u8>) {
        proof {
            reveal(<DisplaySkillEffectNoDamagePacket as Packet>::payload_encoding);
        }
        let mut bytes = self.skill_id.to_bytes(None);
        let mut piece = self.heal_amount.to_bytes(None);
        bytes.append(&mut piece);
        let mut piece = self.destination_entity_id.to_bytes(None);
        bytes.append(&mut piece);
        let mut piece = self.source_entity_id.to_bytes(None);
        bytes.append(&mut piece);
        let mut piece = self.result.to_bytes(None);
        bytes.append(&mut piece);
        bytes
    }

    proof fn lemma_payload_round_trip(
        value: DisplaySkillEffectNoDamagePacket,
        data: Seq<u8>,
        at: int,
    ) {
        reveal(<DisplaySkillEffectNoDamagePacket as Packet>::payload_decoding);
        reveal(<DisplaySkillEffectNoDamagePacket as Packet>::payload_encoding);
        let piece_0 = SkillId::encoding(value.skill_id, None);
        let piece_1 = u32::encoding(value.heal_amount, None);
        let piece_2 = EntityId::encoding(value.destination_entity_id, None);
        let piece_3 = EntityId::encoding(value.source_entity_id, None);
        let piece_4 = u8::encoding(value.result, None);
        let front_1 = piece_0;
        let front_2 = front_1 + piece_1;
        let front_3 = front_2 + piece_2;
        let front_4 = front_3 + piece_3;
        lemma_holds_at_split(data, at, front_4, piece_4);
        lemma_holds_at_split(data, at, front_3, piece_3);
        lemma_holds_at_split(data, at, front_2, piece_2);
        lemma_holds_at_split(data, at, front_1, piece_1);
        SkillId::lemma_round_trip(value.skill_id, None, data, at);
        u32::lemma_round_trip(value.heal_amount, None, data, at + front_1.len());
        EntityId::lemma_round_trip(value.destination_entity_id, None, data, at + front_2.len());
        EntityId::lemma_round_trip(value.source_entity_id, None, data, at + front_3.len());
        u8::lemma_round_trip(value.result, None, data, at + front_4.len());
    }
}

#[derive(Clone, Copy, Debug)]
pub struct UseSkillAtIdPacket {
    pub skill_level: SkillLevel,
    pub skill_id: SkillId,
    pub target_id: EntityId,
}

impl UseSkillAtIdPacket {
    /// The packet that [`new`](Self::new) makes.
    pub open spec fn made(
        skill_level: SkillLevel,
        skill_id: SkillId,
        target_id: EntityId,
    ) -> UseSkillAtIdPacket {
        UseSkillAtIdPacket { skill_level, skill_id, target_id }
    }

    pub fn new(skill_level: SkillLevel, skill_id: SkillId, target_id: EntityId) -> (packet: Self)
        ensures
            packet.model() == Self::made(skill_level.model(), skill_id.model(), target_id.model()),
    {
        let packet = UseSkillAtIdPacket { skill_level, skill_id, target_id };
        packet
    }
}

impl Packet for UseSkillAtIdPacket {
    type Model = UseSkillAtIdPacket;

    const PACKET_NAME: &'static str = "UseSkillAtIdPacket";

    const IS_PING: bool = false;

    open spec fn model(&self) -> UseSkillAtIdPacket {
        *self
    }

    open spec fn packet_header() -> u16 {
        0x0438
    }

    #[verifier::opaque]
    open spec fn payload_decoding(data: Seq<u8>, at: int) -> Result<
        (UseSkillAtIdPacket, nat),
        ConversionError,
    > {
        let skill_level = SkillLevel::decoding(data, at, None);
        let at_skill_id = behind(at, skill_level);
        let skill_id = SkillId::decoding(data, at_skill_id, None);
        let at_target_id = behind(at_skill_id, skill_id);
        let target_id = EntityId::decoding(data, at_target_id, None);
        let behind_all = behind(at_target_id, target_id);
        if skill_level is Err {
            Err(skill_level->Err_0)
        } else if skill_id is Err {
            Err(skill_id->Err_0)
        } else if target_id is Err {
            Err(target_id->Err_0)
        } else {
            Ok(
                (
                    UseSkillAtIdPacket {
                        skill_level: skill_level->Ok_0.0,
                        skill_id: skill_id->Ok_0.0,
                        target_id: target_id->Ok_0.0,
                    },
                    (behind_all - at) as nat,
                ),
            )
        }
    }

    open spec fn encodable(value: UseSkillAtIdPacket) -> bool {
        true
    }

    #[verifier::opaque]
    open spec fn payload_encoding(value: UseSkillAtIdPacket) -> Seq<u8> {
        SkillLevel::encoding(value.skill_level, None)
            + SkillId::encoding(value.skill_id, None)
            + EntityId::encoding(value.target_id, None)
    }

    fn header() -> (header: u16) {
        0x0438
    }

    fn payload_from_bytes(byte_stream: &mut ByteStream) -> (result: Result<
        Self,
        ConversionError,
    >) {
        proof {
            reveal(<UseSkillAtIdPacket as Packet>::payload_decoding);
        }
        let mut cursor = byte_stream.fork();
        let skill_level = SkillLevel::from_bytes(&mut cursor, None)?;
        let skill_id = SkillId::from_bytes(&mut cursor, None)?;
        let target_id = EntityId::from_bytes(&mut cursor, None)?;
        byte_stream.follow(&cursor);
        Ok(UseSkillAtIdPacket { skill_level, skill_id, target_id })
    }

    fn payload_to_bytes(&self) -> (bytes: Vec<u8>) {
        proof {
            reveal(<UseSkillAtIdPacket as Packet>::payload_encoding);
        }
        let mut bytes = self.skill_level.to_bytes(None);
        let mut piece = self.skill_id.to_bytes(None);
        bytes.append(&mut piece);
        let mut piece = self.target_id.to_bytes(None);
        bytes.append(&mut piece);
        bytes
    }

    proof fn lemma_payload_round_trip(value: UseSkillAtIdPacket, data: Seq<u8>, at: int) {
        reveal(<UseSkillAtIdPacket as Packet>::payload_decoding);
        reveal(<UseSkillAtIdPacket as Packet>::payload_encoding);
        let piece_0 = SkillLevel::encoding(value.skill_level, None);
        let piece_1 = SkillId::encoding(value.skill_id, None);
        let piece_2 = EntityId::encoding(value.target_id, None);
        let front_1 = piece_0;
        let front_2 = front_1 + piece_1;
        lemma_holds_at_split(data, at, front_2, piece_2);
        lemma_holds_at_split(data, at, front_1, piece_1);
        SkillLevel::lemma_round_trip(value.skill_level, None, data, at);
        SkillId::lemma_round_trip(value.skill_id, None, data, at + front_1.len());
        EntityId::lemma_round_trip(value.target_id, None, data, at + front_2.len());
    }
}

#[derive(Clone, Copy, Debug)]
pub struct UseSkillOnGroundPacket {
    pub skill_level: SkillLevel,
    pub skill_id: SkillId,
    pub target_position: Vector2<u16>,
    pub unused: u8,
}

impl UseSkillOnGroundPacket {
    /// The packet that [`new`](Self::new) makes.
    pub open spec fn made(
        skill_level: SkillLevel,
        skill_id: SkillId,
        target_position: Vector2<u16>,
    ) -> UseSkillOnGroundPacket {
        UseSkillOnGroundPacket { skill_level, skill_id, target_position, unused: 0 }
    }

    pub fn new(
        skill_level: SkillLevel,
        skill_id: SkillId,
        target_position: Vector2<u16>,
    ) -> (packet: Self)
        ensures
            packet.model() == Self::made(
                skill_level.model(),
                skill_id.model(),
                target_position.model(),
            ),
    {
        let packet = UseSkillOnGroundPacket { skill_level, skill_id, target_position, unused: 0 };
        packet
    }
}

impl Packet for UseSkillOnGroundPacket {
    type Model = UseSkillOnGroundPacket;

    const PACKET_NAME: &'static str = "UseSkillOnGroundPacket";

    const IS_PING: bool = false;

    open spec fn model(&self) -> UseSkillOnGroundPacket {
        *self
    }

    open spec fn packet_header() -> u16 {
        0x0af4
    }

    #[verifier::opaque]
    open spec fn payload_decoding(data: Seq<u8>, at: int) -> Result<
        (UseSkillOnGroundPacket, nat),
        ConversionError,
    > {
        let skill_level = SkillLevel::decoding(data, at, None);
        let at_skill_id = behind(at, skill_level);
        let skill_id = SkillId::decoding(data, at_skill_id, None);
        let at_target_position = behind(at_skill_id, skill_id);
        let target_position = Vector2::<u16>::decoding(data, at_target_position, None);
        let at_unused = behind(at_target_position, target_position);
        let unused = u8::decoding(data, at_unused, None);
        let behind_all = behind(at_unused, unused);
        if skill_level is Err {
            Err(skill_level->Err_0)
        } else if skill_id is Err {
            Err(skill_id->Err_0)
        } else if target_position is Err {
            Err(target_position->Err_0)
        } else if unused is Err {
            Err(unused->Err_0)
        } else {
            Ok(
                (
                    UseSkillOnGroundPacket {
                        skill_level: skill_level->Ok_0.0,
                        skill_id: skill_id->Ok_0.0,
                        target_position: target_position->Ok_0.0,
                        unused: unused->Ok_0.0,
                    },
                    (behind_all - at) as nat,
                ),
            )
        }
    }

    open spec fn encodable(value: UseSkillOnGroundPacket) -> bool {
        true
    }

    #[verifier::opaque]
    open spec fn payload_encoding(value: UseSkillOnGroundPacket) -> Seq<u8> {
        SkillLevel::encoding(value.skill_level, None)
            + SkillId::encoding(value.skill_id, None)
            + Vector2::<u16>::encoding(value.target_position, None)
            + u8::encoding(value.unused, None)
    }

    fn header() -> (header: u16) {
        0x0af4
    }

    fn payload_from_bytes(byte_stream: &mut ByteStream) -> (result: Result<
        Self,
        ConversionError,
    >) {
        proof {
            reveal(<UseSkillOnGroundPacket as Packet>::payload_decoding);
        }
        let mut cursor = byte_stream.fork();
        let skill_level = SkillLevel::from_bytes(&mut cursor, None)?;
        let skill_id = SkillId::from_bytes(&mut cursor, None)?;
        let target_position = Vector2::<u16>::from_bytes(&mut cursor, None)?;
        let unused = u8::from_bytes(&mut cursor, None)?;
        byte_stream.follow(&cursor);
        Ok(UseSkillOnGroundPacket { skill_level, skill_id, target_position, unused })
    }

    fn payload_to_bytes(&self) -> (bytes: Vec<u8>) {
        proof {
            reveal(<UseSkillOnGroundPacket as Packet>::payload_encoding);
        }
        let mut bytes = self.skill_level.to_bytes(None);
        let mut piece = self.skill_id.to_bytes(None);
        bytes.append(&mut piece);
        let mut piece = self.target_position.to_bytes(None);
        bytes.append(&mut piece);
        let mut piece = self.unused.to_bytes(None);
        bytes.append(&mut piece);
        bytes
    }

    proof fn lemma_payload_round_trip(value: UseSkillOnGroundPacket, data: Seq<u8>, at: int) {
        reveal(<UseSkillOnGroundPacket as Packet>::payload_decoding);
        reveal(<UseSkillOnGroundPacket as Packet>::payload_encoding);
        let piece_0 = SkillLevel::encoding(value.skill_level, None);
        let piece_1 = SkillId::encoding(value.skill_id, None);
        let piece_2 = Vector2::<u16>::encoding(value.target_position, None);
        let piece_3 = u8::encoding(value.unused, None);
        let front_1 = piece_0;
        let front_2 = front_1 + piece_1;
        let front_3 = front_2 + piece_2;
        lemma_holds_at_split(data, at, front_3, piece_3);
        lemma_holds_at_split(data, at, front_2, piece_2);
        lemma_holds_at_split(data, at, front_1, piece_1);
        SkillLevel::lemma_round_trip(value.skill_level, None, data, at);
        SkillId::lemma_round_trip(value.skill_id, None, data, at + front_1.len());
        Vector2::<u16>::lemma_round_trip(value.target_position, None, data, at + front_2.len());
        u8::lemma_round_trip(value.unused, None, data, at + front_3.len());
    }
}

#[derive(Clone, Copy, Debug)]
pub struct StartUseSkillPacket {
    pub skill_id: SkillId,
    pub skill_level: SkillLevel,
    pub target_id: EntityId,
}

impl StartUseSkillPacket {
    /// The packet that [`new`](Self::new) makes.
    pub open spec fn made(
        skill_id: SkillId,
        skill_level: SkillLevel,
        target_id: EntityId,
    ) -> StartUseSkillPacket {
        StartUseSkillPacket { skill_id, skill_level, target_id }
    }

    pub fn new(skill_id: SkillId, skill_level: SkillLevel, target_id: EntityId) -> (packet: Self)
        ensures
            packet.model() == Self::made(skill_id.model(), skill_level.model(), target_id.model()),
    {
        let packet = StartUseSkillPacket { skill_id, skill_level, target_id };
        packet
    }
}

impl Packet for StartUseSkillPacket {
    type Model = StartUseSkillPacket;

    const PACKET_NAME: &'static str = "StartUseSkillPacket";

    const IS_PING: bool = false;

    open spec fn model(&self) -> StartUseSkillPacket {
        *self
    }

    open spec fn packet_header() -> u16 {
        0x0b10
    }

    #[verifier::opaque]
    open spec fn payload_decoding(data: Seq<u8>, at: int) -> Result<
        (StartUseSkillPacket, nat),
        ConversionError,
    > {
        let skill_id = SkillId::decoding(data, at, None);
        let at_skill_level = behind(at, skill_id);
        let skill_level = SkillLevel::decoding(data, at_skill_level, None);
        let at_target_id = behind(at_skill_level, skill_level);
        let target_id = EntityId::decoding(data, at_target_id, None);
        let behind_all = behind(at_target_id, target_id);
        if skill_id is Err {
            Err(skill_id->Err_0)
        } else if skill_level is Err {
            Err(skill_level->Err_0)
        } else if target_id is Err {
            Err(target_id->Err_0)
        } else {
            Ok(
                (
                    StartUseSkillPacket {
                        skill_id: skill_id->Ok_0.0,
                        skill_level: skill_level->Ok_0.0,
                        target_id: target_id->Ok_0.0,
                    },
                    (behind_all - at) as nat,
                ),
            )
        }
    }

    open spec fn encodable(value: StartUseSkillPacket) -> bool {
        true
    }

    #[verifier::opaque]
    open spec fn payload_encoding(value: StartUseSkillPacket) -> Seq<u8> {
        SkillId::encoding(value.skill_id, None)
            + SkillLevel::encoding(value.skill_level, None)
            + EntityId::encoding(value.target_id, None)
    }

    fn header() -> (header: u16) {
        0x0b10
    }

    fn payload_from_bytes(byte_stream: &mut ByteStream) -> (result: Result<
        Self,
        ConversionError,
    >) {
        proof {
            reveal(<StartUseSkillPacket as Packet>::payload_decoding);
        }
        let mut cursor = byte_stream.fork();
        let skill_id = SkillId::from_bytes(&mut cursor, None)?;
        let skill_level = SkillLevel::from_bytes(&mut cursor, None)?;
        let target_id = EntityId::from_bytes(&mut cursor, None)?;
        byte_stream.follow(&cursor);
        Ok(StartUseSkillPacket { skill_id, skill_level, target_id })
    }

    fn payload_to_bytes(&self) -> (bytes: Vec<u8>) {
        proof {
            reveal(<StartUseSkillPacket as Packet>::payload_encoding);
        }
        let mut bytes = self.skill_id.to_bytes(None);
        let mut piece = self.skill_level.to_bytes(None);
        bytes.append(&mut piece);
        let mut piece = self.target_id.to_bytes(None);
        bytes.append(&mut piece);
        bytes
    }

    proof fn lemma_payload_round_trip(value: StartUseSkillPacket, data: Seq<u8>, at: int) {
        reveal(<StartUseSkillPacket as Packet>::payload_decoding);
        reveal(<StartUseSkillPacket as Packet>::payload_encoding);
        let piece_0 = SkillId::encoding(value.skill_id, None);
        let piece_1 = SkillLevel::encoding(value.skill_level, None);
        let piece_2 = EntityId::encoding(value.target_id, None);
        let front_1 = piece_0;
        let front_2 = front_1 + piece_1;
        lemma_holds_at_split(data, at, front_2, piece_2);
        lemma_holds_at_split(data, at, front_1, piece_1);
        SkillId::lemma_round_trip(value.skill_id, None, data, at);
        SkillLevel::lemma_round_trip(value.skill_level, None, data, at + front_1.len());
        EntityId::lemma_round_trip(value.target_id, None, data, at + front_2.len());
    }
}

#[derive(Clone, Copy, Debug)]
pub struct EndUseSkillPacket {
    pub skill_id: SkillId,
}

impl EndUseSkillPacket {
    /// The packet that [`new`](Self::new) makes.
    pub open spec fn made(skill_id: SkillId) -> EndUseSkillPacket {
        EndUseSkillPacket { skill_id }
    }

    pub fn new(skill_id: SkillId) -> (packet: Self)
        ensures
            packet.model() == Self::made(skill_id.model()),
    {
        let packet = EndUseSkillPacket { skill_id };
        packet
    }
}

impl Packet for EndUseSkillPacket {
    type Model = EndUseSkillPacket;

    const PACKET_NAME: &'static str = "EndUseSkillPacket";

    const IS_PING: bool = false;

    open spec fn model(&self) -> EndUseSkillPacket {
        *self
    }

    open spec fn packet_header() -> u16 {
        0x0b11
    }

    #[verifier::opaque]
    open spec fn payload_decoding(data: Seq<u8>, at: int) -> Result<
        (EndUseSkillPacket, nat),
        ConversionError,
    > {
        let skill_id = SkillId::decoding(data, at, None);
        let behind_all = behind(at, skill_id);
        if skill_id is Err {
            Err(skill_id->Err_0)
        } else {
            Ok(
                (
                    EndUseSkillPacket {
                        skill_id: skill_id->Ok_0.0,
                    },
                    (behind_all - at) as nat,
                ),
            )
        }
    }

    open spec fn encodable(value: EndUseSkillPacket) -> bool {
        true
    }

    #[verifier::opaque]
    open spec fn payload_encoding(value: EndUseSkillPacket) -> Seq<u8> {
        SkillId::encoding(value.skill_id, None)
    }

    fn header() -> (header: u16) {
        0x0b11
    }

    fn payload_from_bytes(byte_stream: &mut ByteStream) -> (result: Result<
        Self,
        ConversionError,
    >) {
        proof {
            reveal(<EndUseSkillPacket as Packet>::payload_decoding);
        }
        let mut cursor = byte_stream.fork();
        let skill_id = SkillId::from_bytes(&mut cursor, None)?;
        byte_stream.follow(&cursor);
        Ok(EndUseSkillPacket { skill_id })
    }

    fn payload_to_bytes(&self) -> (bytes: Vec<u8>) {
        proof {
            reveal(<EndUseSkillPacket as Packet>::payload_encoding);
        }
        let bytes = self.skill_id.to_bytes(None);
        bytes
    }

    proof fn lemma_payload_round_trip(value: EndUseSkillPacket, data: Seq<u8>, at: int) {
        reveal(<EndUseSkillPacket as Packet>::payload_decoding);
        reveal(<EndUseSkillPacket as Packet>::payload_encoding);
        let piece_0 = SkillId::encoding(value.skill_id, None);
        SkillId::lemma_round_trip(value.skill_id, None, data, at);
    }
}

#[derive(Clone, Copy, Debug)]
pub struct UseSkillSuccessPacket {
    pub source_entity: EntityId,
    pub destination_entity: EntityId,
    pub position: Vector2<u16>,
    pub skill_id: SkillId,
    pub element: u32,
    pub delay_time: u32,
    pub disposable: u8,
}

impl Packet for UseSkillSuccessPacket {
    type Model = UseSkillSuccessPacket;

    const PACKET_NAME: &'static str = "UseSkillSuccessPacket";

    const IS_PING: bool = false;

    open spec fn model(&self) -> UseSkillSuccessPacket {
        *self
    }

    open spec fn packet_header() -> u16 {
        0x07fb
    }

    #[verifier::opaque]
    open spec fn payload_decoding(data: Seq<u8>, at: int) -> Result<
        (UseSkillSuccessPacket, nat),
        ConversionError,
    > {
        let source_entity = EntityId::decoding(data, at, None);
        let at_destination_entity = behind(at, source_entity);
        let destination_entity = EntityId::decoding(data, at_destination_entity, None);
        let at_position = behind(at_destination_entity, destination_entity);
        let position = Vector2::<u16>::decoding(data, at_position, None);
        let at_skill_id = behind(at_position, position);
        let skill_id = SkillId::decoding(data, at_skill_id, None);
        let at_element = behind(at_skill_id, skill_id);
        let element = u32::decoding(data, at_element, None);
        let at_delay_time = behind(at_element, element);
        let delay_time = u32::decoding(data, at_delay_time, None);
        let at_disposable = behind(at_delay_time, delay_time);
        let disposable = u8::decoding(data, at_disposable, None);
        let behind_all = behind(at_disposable, disposable);
        if source_entity is Err {
            Err(source_entity->Err_0)
        } else if destination_entity is Err {
            Err(destination_entity->Err_0)
        } else if position is Err {
            Err(position->Err_0)
        } else if skill_id is Err {
            Err(skill_id->Err_0)
        } else if element is Err {
            Err(element->Err_0)
        } else if delay_time is Err {
            Err(delay_time->Err_0)
        } else if disposable is Err {
            Err(disposable->Err_0)
        } else {
            Ok(
                (
                    UseSkillSuccessPacket {
                        source_entity: source_entity->Ok_0.0,
                        destination_entity: destination_entity->Ok_0.0,
                        position: position->Ok_0.0,
                        skill_id: skill_id->Ok_0.0,
                        element: element->Ok_0.0,
                        delay_time: delay_time->Ok_0.0,
                        disposable: disposable->Ok_0.0,
                    },
                    (behind_all - at) as nat,
                ),
            )
        }
    }

    open spec fn encodable(value: UseSkillSuccessPacket) -> bool {
        true
    }

    #[verifier::opaque]
    open spec fn payload_encoding(value: UseSkillSuccessPacket) -> Seq<u8> {
        EntityId::encoding(value.source_entity, None)
            + EntityId::encoding(value.destination_entity, None)
            + Vector2::<u16>::encoding(value.position, None)
            + SkillId::encoding(value.skill_id, None)
            + u32::encoding(value.element, None)
            + u32::encoding(value.delay_time, None)
            + u8::encoding(value.disposable, None)
    }

    fn header() -> (header: u16) {
        0x07fb
    }

    fn payload_from_bytes(byte_stream: &mut ByteStream) -> (result: Result<
        Self,
        ConversionError,
    >) {
        proof {
            reveal(<UseSkillSuccessPacket as Packet>::payload_decoding);
        }
        let mut cursor = byte_stream.fork();
        let source_entity = EntityId::from_bytes(&mut cursor, None)?;
        let destination_entity = EntityId::from_bytes(&mut cursor, None)?;
        let position = Vector2::<u16>::from_bytes(&mut cursor, None)?;
        let skill_id = SkillId::from_bytes(&mut cursor, None)?;
        let element = u32::from_bytes(&mut cursor, None)?;
        let delay_time = u32::from_bytes(&mut cursor, None)?;
        let disposable = u8::from_bytes(&mut cursor, None)?;
        byte_stream.follow(&cursor);
        Ok(UseSkillSuccessPacket {
            source_entity,
            destination_entity,
            position,
            skill_id,
            element,
            delay_time,
            disposable,
        })
    }

    fn payload_to_bytes(&self) -> (bytes: Vec<u8>) {
        proof {
            reveal(<UseSkillSuccessPacket as Packet>::payload_encoding);
        }
        let mut bytes = self.source_entity.to_bytes(None);
        let mut piece = self.destination_entity.to_bytes(None);
        bytes.append(&mut piece);
        let mut piece = self.position.to_bytes(None);
        bytes.append(&mut piece);
        let mut piece = self.skill_id.to_bytes(None);
        bytes.append(&mut piece);
        let mut piece = self.element.to_bytes(None);
        bytes.append(&mut piece);
        let mut piece = self.delay_time.to_bytes(None);
        bytes.append(&mut piece);
        let mut piece = self.disposable.to_bytes(None);
        bytes.append(&mut piece);
        bytes
    }

    proof fn lemma_payload_round_trip(value: UseSkillSuccessPacket, data: Seq<u8>, at: int) {
        reveal(<UseSkillSuccessPacket as Packet>::payload_decoding);
        reveal(<UseSkillSuccessPacket as Packet>::payload_encoding);
        let piece_0 = EntityId::encoding(value.source_entity, None);
        let piece_1 = EntityId::encoding(value.destination_entity, None);
        let piece_2 = Vector2::<u16>::encoding(value.position, None);
        let piece_3 = SkillId::encoding(value.skill_id, None);
        let piece_4 = u32::encoding(value.element, None);
        let piece_5 = u32::encoding(value.delay_time, None);
        let piece_6 = u8::encoding(value.disposable, None);
        let front_1 = piece_0;
        let front_2 = front_1 + piece_1;
        let front_3 = front_2 + piece_2;
        let front_4 = front_3 + piece_3;
        let front_5 = front_4 + piece_4;
        let front_6 = front_5 + piece_5;
        lemma_holds_at_split(data, at, front_6, piece_6);
        lemma_holds_at_split(data, at, front_5, piece_5);
        lemma_holds_at_split(data, at, front_4, piece_4);
        lemma_holds_at_split(data, at, front_3, piece_3);
        lemma_holds_at_split(data, at, front_2, piece_2);
        lemma_holds_at_split(data, at, front_1, piece_1);
        EntityId::lemma_round_trip(value.source_entity, None, data, at);
        EntityId::lemma_round_trip(value.destination_entity, None, data, at + front_1.len());
        Vector2::<u16>::lemma_round_trip(value.position, None, data, at + front_2.len());
        SkillId::lemma_round_trip(value.skill_id, None, data, at + front_3.len());
        u32::lemma_round_trip(value.element, None, data, at + front_4.len());
        u32::lemma_round_trip(value.delay_time, None, data, at + front_5.len());
        u8::lemma_round_trip(value.disposable, None, data, at + front_6.len());
    }
}

#[derive(Clone, Copy, Debug)]
pub struct ToUseSkillSuccessPacket {
    pub skill_id: SkillId,
    pub btype: i32,
    pub item_id: ItemId,
    pub flag: u8,
    pub cause: u8,
}

impl Packet for ToUseSkillSuccessPacket {
    type Model = ToUseSkillSuccessPacket;

    const PACKET_NAME: &'static str = "ToUseSkillSuccessPacket";

    const IS_PING: bool = false;

    open spec fn model(&self) -> ToUseSkillSuccessPacket {
        *self
    }

    open spec fn packet_header() -> u16 {
        0x0110
    }

    #[verifier::opaque]
    open spec fn payload_decoding(data: Seq<u8>, at: int) -> Result<
        (ToUseSkillSuccessPacket, nat),
        ConversionError,
    > {
        let skill_id = SkillId::decoding(data, at, None);
        let at_btype = behind(at, skill_id);
        let btype = i32::decoding(data, at_btype, None);
        let at_item_id = behind(at_btype, btype);
        let item_id = ItemId::decoding(data, at_item_id, None);
        let at_flag = behind(at_item_id, item_id);
        let flag = u8::decoding(data, at_flag, None);
        let at_cause = behind(at_flag, flag);
        let cause = u8::decoding(data, at_cause, None);
        let behind_all = behind(at_cause, cause);
        if skill_id is Err {
            Err(skill_id->Err_0)
        } else if btype is Err {
            Err(btype->Err_0)
        } else if item_id is Err {
            Err(item_id->Err_0)
        } else if flag is Err {
            Err(flag->Err_0)
        } else if cause is Err {
            Err(cause->Err_0)
        } else {
            Ok(
                (
                    ToUseSkillSuccessPacket {
                        skill_id: skill_id->Ok_0.0,
                        btype: btype->Ok_0.0,
                        item_id: item_id->Ok_0.0,
                        flag: flag->Ok_0.0,
                        cause: cause->Ok_0.0,
                    },
                    (behind_all - at) as nat,
                ),
            )
        }
    }

    open spec fn encodable(value: ToUseSkillSuccessPacket) -> bool {
        true
    }

    #[verifier::opaque]
    open spec fn payload_encoding(value: ToUseSkillSuccessPacket) -> Seq<u8> {
        SkillId::encoding(value.skill_id, None)
            + i32::encoding(value.btype, None)
            + ItemId::encoding(value.item_id, None)
            + u8::encoding(value.flag, None)
            + u8::encoding(value.cause, None)
    }

    fn header() -> (header: u16) {
        0x0110
    }

    fn payload_from_bytes(byte_stream: &mut ByteStream) -> (result: Result<
        Self,
        ConversionError,
    >) {
        proof {
            reveal(<ToUseSkillSuccessPacket as Packet>::payload_decoding);
        }
        let mut cursor = byte_stream.fork();
        let skill_id = SkillId::from_bytes(&mut cursor, None)?;
        let btype = i32::from_bytes(&mut cursor, None)?;
        let item_id = ItemId::from_bytes(&mut cursor, None)?;
        let flag = u8::from_bytes(&mut cursor, None)?;
        let cause = u8::from_bytes(&mut cursor, None)?;
        byte_stream.follow(&cursor);
        Ok(ToUseSkillSuccessPacket { skill_id, btype, item_id, flag, cause })
    }

    fn payload_to_bytes(&self) -> (bytes: Vec<u8>) {
        proof {
            reveal(<ToUseSkillSuccessPacket as Packet>::payload_encoding);
        }
        let mut bytes = self.skill_id.to_bytes(None);
        let mut piece = self.btype.to_bytes(None);
        bytes.append(&mut piece);
        let mut piece = self.item_id.to_bytes(None);
        bytes.append(&mut piece);
        let mut piece = self.flag.to_bytes(None);
        bytes.append(&mut piece);
        let mut piece = self.cause.to_bytes(None);
        bytes.append(&mut piece);
        bytes
    }

    proof fn lemma_payload_round_trip(value: ToUseSkillSuccessPacket, data: Seq<u8>, at: int) {
        reveal(<ToUseSkillSuccessPacket as Packet>::payload_decoding);
        reveal(<ToUseSkillSuccessPacket as Packet>::payload_encoding);
        let piece_0 = SkillId::encoding(value.skill_id, None);
        let piece_1 = i32::encoding(value.btype, None);
        let piece_2 = ItemId::encoding(value.item_id, None);
        let piece_3 = u8::encoding(value.flag, None);
        let piece_4 = u8::encoding(value.cause, None);
        let front_1 = piece_0;
        let front_2 = front_1 + piece_1;
        let front_3 = front_2 + piece_2;
        let front_4 = front_3 + piece_3;
        lemma_holds_at_split(data, at, front_4, piece_4);
        lemma_holds_at_split(data, at, front_3, piece_3);
        lemma_holds_at_split(data, at, front_2, piece_2);
        lemma_holds_at_split(data, at, front_1, piece_1);
        SkillId::lemma_round_trip(value.skill_id, None, data, at);
        i32::lemma_round_trip(value.btype, None, data, at + front_1.len());
        ItemId::lemma_round_trip(value.item_id, None, data, at + front_2.len());
        u8::lemma_round_trip(value.flag, None, data, at + front_3.len());
        u8::lemma_round_trip(value.cause, None, data, at + front_4.len());
    }
}

#[derive(Clone, Copy, Debug, PartialEq, Eq, Structural)]
pub enum UnitId {
    Safetywall,
    Firewall,
    WarpWaiting,
    WarpActive,
    Benedictio,
    Sanctuary,
    Magnus,
    Pneuma,
    Dummyskill,
    FirepillarWaiting,
    FirepillarActive,
    HiddenTrap,
    Trap,
    HiddenWarpNpc,
    UsedTraps,
    Icewall,
    Quagmire,
    Blastmine,
    Skidtrap,
    Anklesnare,
    Venomdust,
    Landmine,
    Shockwave,
    Sandman,
    Flasher,
    Freezingtrap,
    Claymoretrap,
    Talkiebox,
    Volcano,
    Deluge,
    Violentgale,
    Landprotector,
    Lullaby,
    Richmankim,
    Eternalchaos,
    Drumbattlefield,
    Ringnibelungen,
    Rokisweil,
    Intoabyss,
    Siegfried,
    Dissonance,
    Whistle,
    Assassincross,
    Poembragi,
    Appleidun,
    Uglydance,
    Humming,
    Dontforgetme,
    Fortunekiss,
    Serviceforyou,
    Graffiti,
    Demonstration,
    Callfamily,
    Gospel,
    Basilica,
    Moonlit,
    Fogwall,
    Spiderweb,
    Gravitation,
    Hermode,
    Kaensin,
    Suiton,
    Tatamigaeshi,
    Kaen,
    GrounddriftWind,
    GrounddriftDark,
    GrounddriftPoison,
    GrounddriftWater,
    GrounddriftFire,
    Deathwave,
    Waterattack,
    Windattack,
    Earthquake,
    Evilland,
    DarkRunner,
    DarkTransfer,
    Epiclesis,
    Earthstrain,
    Manhole,
    Dimensiondoor,
    Chaospanic,
    Maelstrom,
    Bloodylust,
    Feintbomb,
    Magentatrap,
    Cobalttrap,
    Maizetrap,
    Verduretrap,
    Firingtrap,
    Iceboundtrap,
    Electricshocker,
    Clusterbomb,
    Reverberation,
    SevereRainstorm,
    Firewalk,
    Electricwalk,
    Netherworld,
    PsychicWave,
    CloudKill,
    Poisonsmoke,
    Neutralbarrier,
    Stealthfield,
    Warmer,
    ThornsTrap,
    Wallofthorn,
    DemonicFire,
    FireExpansionSmokePowder,
    FireExpansionTearGas,
    HellsPlant,
    VacuumExtreme,
    Banding,
    FireMantle,
    WaterBarrier,
    Zephyr,
    PowerOfGaia,
    FireInsignia,
    WaterInsignia,
    WindInsignia,
    EarthInsignia,
    PoisonMist,
    LavaSlide,
    VolcanicAsh,
    ZenkaiWater,
    ZenkaiLand,
    ZenkaiFire,
    ZenkaiWind,
    Makibishi,
    Venomfog,
    Icemine,
    Flamecross,
    Hellburning,
    MagmaEruption,
    KingsGrace,
    GlitteringGreed,
    BTrap,
    FireRain,
    Catnippowder,
    Nyanggrass,
    Creatingstar,
    Dummy0,
    RainOfCrystal,
    MysteryIllusion,
    StrantumTremor,
    ViolentQuake,
    AllBloom,
    TornadoStorm,
    FloralFlareRoad,
    AstralStrike,
    CrossRain,
    PneumaticusProcella,
    AbyssSquare,
    AcidifiedZoneWater,
    AcidifiedZoneGround,
    AcidifiedZoneWind,
    AcidifiedZoneFire,
    LightningLand,
    VenomSwamp,
    Conflagration,
    CaneOfEvilEye,
    TwinklingGalaxy,
    StarCannon,
    GrenadesDropping,
    Fuumashouaku,
    MissionBombard,
    TotemOfTutelary,
    HyunRoksBreeze,
    Shinkirou,
    JackFrostNova,
    GroundGravitation,
    Kunaiwaikyoku,
    Deepblindtrap,
    Solidtrap,
    Swifttrap,
    Flametrap,
    GdLeadership,
    GdGlorywounds,
    GdSoulcold,
    GdHawkeyes,
    Max,
}

impl UnitId {
    /// The number that stands for a variant on the wire.
    pub open spec fn code(self) -> u32 {
        match self {
            UnitId::Safetywall => 126,
            UnitId::Firewall => 127,
            UnitId::WarpWaiting => 128,
            UnitId::WarpActive => 129,
            UnitId::Benedictio => 130,
            UnitId::Sanctuary => 131,
            UnitId::Magnus => 132,
            UnitId::Pneuma => 133,
            UnitId::Dummyskill => 134,
            UnitId::FirepillarWaiting => 135,
            UnitId::FirepillarActive => 136,
            UnitId::HiddenTrap => 137,
            UnitId::Trap => 138,
            UnitId::HiddenWarpNpc => 139,
            UnitId::UsedTraps => 140,
            UnitId::Icewall => 141,
            UnitId::Quagmire => 142,
            UnitId::Blastmine => 143,
            UnitId::Skidtrap => 144,
            UnitId::Anklesnare => 145,
            UnitId::Venomdust => 146,
            UnitId::Landmine => 147,
            UnitId::Shockwave => 148,
            UnitId::Sandman => 149,
            UnitId::Flasher => 150,
            UnitId::Freezingtrap => 151,
            UnitId::Claymoretrap => 152,
            UnitId::Talkiebox => 153,
            UnitId::Volcano => 154,
            UnitId::Deluge => 155,
            UnitId::Violentgale => 156,
            UnitId::Landprotector => 157,
            UnitId::Lullaby => 158,
            UnitId::Richmankim => 159,
            UnitId::Eternalchaos => 160,
            UnitId::Drumbattlefield => 161,
            UnitId::Ringnibelungen => 162,
            UnitId::Rokisweil => 163,
            UnitId::Intoabyss => 164,
            UnitId::Siegfried => 165,
            UnitId::Dissonance => 166,
            UnitId::Whistle => 167,
            UnitId::Assassincross => 168,
            UnitId::Poembragi => 169,
            UnitId::Appleidun => 170,
            UnitId::Uglydance => 171,
            UnitId::Humming => 172,
            UnitId::Dontforgetme => 173,
            UnitId::Fortunekiss => 174,
            UnitId::Serviceforyou => 175,
            UnitId::Graffiti => 176,
            UnitId::Demonstration => 177,
            UnitId::Callfamily => 178,
            UnitId::Gospel => 179,
            UnitId::Basilica => 180,
            UnitId::Moonlit => 181,
            UnitId::Fogwall => 182,
            UnitId::Spiderweb => 183,
            UnitId::Gravitation => 184,
            UnitId::Hermode => 185,
            UnitId::Kaensin => 186,
            UnitId::Suiton => 187,
            UnitId::Tatamigaeshi => 188,
            UnitId::Kaen => 189,
            UnitId::GrounddriftWind => 190,
            UnitId::GrounddriftDark => 191,
            UnitId::GrounddriftPoison => 192,
            UnitId::GrounddriftWater => 193,
            UnitId::GrounddriftFire => 194,
            UnitId::Deathwave => 195,
            UnitId::Waterattack => 196,
            UnitId::Windattack => 197,
            UnitId::Earthquake => 198,
            UnitId::Evilland => 199,
            UnitId::DarkRunner => 200,
            UnitId::DarkTransfer => 201,
            UnitId::Epiclesis => 202,
            UnitId::Earthstrain => 203,
            UnitId::Manhole => 204,
            UnitId::Dimensiondoor => 205,
            UnitId::Chaospanic => 206,
            UnitId::Maelstrom => 207,
            UnitId::Bloodylust => 208,
            UnitId::Feintbomb => 209,
            UnitId::Magentatrap => 210,
            UnitId::Cobalttrap => 211,
            UnitId::Maizetrap => 212,
            UnitId::Verduretrap => 213,
            UnitId::Firingtrap => 214,
            UnitId::Iceboundtrap => 215,
            UnitId::Electricshocker => 216,
            UnitId::Clusterbomb => 217,
            UnitId::Reverberation => 218,
            UnitId::SevereRainstorm => 219,
            UnitId::Firewalk => 220,
            UnitId::Electricwalk => 221,
            UnitId::Netherworld => 222,
            UnitId::PsychicWave => 223,
            UnitId::CloudKill => 224,
            UnitId::Poisonsmoke => 225,
            UnitId::Neutralbarrier => 226,
            UnitId::Stealthfield => 227,
            UnitId::Warmer => 228,
            UnitId::ThornsTrap => 229,
            UnitId::Wallofthorn => 230,
            UnitId::DemonicFire => 231,
            UnitId::FireExpansionSmokePowder => 232,
            UnitId::FireExpansionTearGas => 233,
            UnitId::HellsPlant => 234,
            UnitId::VacuumExtreme => 235,
            UnitId::Banding => 236,
            UnitId::FireMantle => 237,
            UnitId::WaterBarrier => 238,
            UnitId::Zephyr => 239,
            UnitId::PowerOfGaia => 240,
            UnitId::FireInsignia => 241,
            UnitId::WaterInsignia => 242,
            UnitId::WindInsignia => 243,
            UnitId::EarthInsignia => 244,
            UnitId::PoisonMist => 245,
            UnitId::LavaSlide => 246,
            UnitId::VolcanicAsh => 247,
            UnitId::ZenkaiWater => 248,
            UnitId::ZenkaiLand => 249,
            UnitId::ZenkaiFire => 250,
            UnitId::ZenkaiWind => 251,
            UnitId::Makibishi => 252,
            UnitId::Venomfog => 253,
            UnitId::Icemine => 254,
            UnitId::Flamecross => 255,
            UnitId::Hellburning => 256,
            UnitId::MagmaEruption => 257,
            UnitId::KingsGrace => 258,
            UnitId::GlitteringGreed => 259,
            UnitId::BTrap => 260,
            UnitId::FireRain => 261,
            UnitId::Catnippowder => 262,
            UnitId::Nyanggrass => 263,
            UnitId::Creatingstar => 264,
            UnitId::Dummy0 => 265,
            UnitId::RainOfCrystal => 266,
            UnitId::MysteryIllusion => 267,
            UnitId::StrantumTremor => 269,
            UnitId::ViolentQuake => 270,
            UnitId::AllBloom => 271,
            UnitId::TornadoStorm => 272,
            UnitId::FloralFlareRoad => 273,
            UnitId::AstralStrike => 274,
            UnitId::CrossRain => 275,
            UnitId::PneumaticusProcella => 276,
            UnitId::AbyssSquare => 277,
            UnitId::AcidifiedZoneWater => 278,
            UnitId::AcidifiedZoneGround => 279,
            UnitId::AcidifiedZoneWind => 280,
            UnitId::AcidifiedZoneFire => 281,
            UnitId::LightningLand => 282,
            UnitId::VenomSwamp => 283,
            UnitId::Conflagration => 284,
            UnitId::CaneOfEvilEye => 285,
            UnitId::TwinklingGalaxy => 286,
            UnitId::StarCannon => 287,
            UnitId::GrenadesDropping => 288,
            UnitId::Fuumashouaku => 290,
            UnitId::MissionBombard => 291,
            UnitId::TotemOfTutelary => 292,
            UnitId::HyunRoksBreeze => 293,
            UnitId::Shinkirou => 294,
            UnitId::JackFrostNova => 295,
            UnitId::GroundGravitation => 296,
            UnitId::Kunaiwaikyoku => 298,
            UnitId::Deepblindtrap => 20852,
            UnitId::Solidtrap => 20853,
            UnitId::Swifttrap => 20854,
            UnitId::Flametrap => 20855,
            UnitId::GdLeadership => 193,
            UnitId::GdGlorywounds => 194,
            UnitId::GdSoulcold => 195,
            UnitId::GdHawkeyes => 196,
            UnitId::Max => 400,
        }
    }

    /// The variant that a number stands for. Where variants share a number it
    /// stands for the first of them.
    pub open spec fn of_code(code: u32) -> Option<UnitId> {
        if code == 126 {
            Some(UnitId::Safetywall)
        } else if code == 127 {
            Some(UnitId::Firewall)
        } else if code == 128 {
            Some(UnitId::WarpWaiting)
        } else if code == 129 {
            Some(UnitId::WarpActive)
        } else if code == 130 {
            Some(UnitId::Benedictio)
        } else if code == 131 {
            Some(UnitId::Sanctuary)
        } else if code == 132 {
            Some(UnitId::Magnus)
        } else if code == 133 {
            Some(UnitId::Pneuma)
        } else if code == 134 {
            Some(UnitId::Dummyskill)
        } else if code == 135 {
            Some(UnitId::FirepillarWaiting)
        } else if code == 136 {
            Some(UnitId::FirepillarActive)
        } else if code == 137 {
            Some(UnitId::HiddenTrap)
        } else if code == 138 {
            Some(UnitId::Trap)
        } else if code == 139 {
            Some(UnitId::HiddenWarpNpc)
        } else if code == 140 {
            Some(UnitId::UsedTraps)
        } else if code == 141 {
            Some(UnitId::Icewall)
        } else if code == 142 {
            Some(UnitId::Quagmire)
        } else if code == 143 {
            Some(UnitId::Blastmine)
        } else if code == 144 {
            Some(UnitId::Skidtrap)
        } else if code == 145 {
            Some(UnitId::Anklesnare)
        } else if code == 146 {
            Some(UnitId::Venomdust)
        } else if code == 147 {
            Some(UnitId::Landmine)
        } else if code == 148 {
            Some(UnitId::Shockwave)
        } else if code == 149 {
            Some(UnitId::Sandman)
        } else if code == 150 {
            Some(UnitId::Flasher)
        } else if code == 151 {
            Some(UnitId::Freezingtrap)
        } else if code == 152 {
            Some(UnitId::Claymoretrap)
        } else if code == 153 {
            Some(UnitId::Talkiebox)
        } else if code == 154 {
            Some(UnitId::Volcano)
        } else if code == 155 {
            Some(UnitId::Deluge)
        } else if code == 156 {
            Some(UnitId::Violentgale)
        } else if code == 157 {
            Some(UnitId::Landprotector)
        } else if code == 158 {
            Some(UnitId::Lullaby)
        } else if code == 159 {
            Some(UnitId::Richmankim)
        } else if code == 160 {
            Some(UnitId::Eternalchaos)
        } else if code == 161 {
            Some(UnitId::Drumbattlefield)
        } else if code == 162 {
            Some(UnitId::Ringnibelungen)
        } else if code == 163 {
            Some(UnitId::Rokisweil)
        } else if code == 164 {
            Some(UnitId::Intoabyss)
        } else if code == 165 {
            Some(UnitId::Siegfried)
        } else if code == 166 {
            Some(UnitId::Dissonance)
        } else if code == 167 {
            Some(UnitId::Whistle)
        } else if code == 168 {
            Some(UnitId::Assassincross)
        } else if code == 169 {
            Some(UnitId::Poembragi)
        } else if code == 170 {
            Some(UnitId::Appleidun)
        } else if code == 171 {
            Some(UnitId::Uglydance)
        } else if code == 172 {
            Some(UnitId::Humming)
        } else if code == 173 {
            Some(UnitId::Dontforgetme)
        } else if code == 174 {
            Some(UnitId::Fortunekiss)
        } else if code == 175 {
            Some(UnitId::Serviceforyou)
        } else if code == 176 {
            Some(UnitId::Graffiti)
        } else if code == 177 {
            Some(UnitId::Demonstration)
        } else if code == 178 {
            Some(UnitId::Callfamily)
        } else if code == 179 {
            Some(UnitId::Gospel)
        } else if code == 180 {
            Some(UnitId::Basilica)
        } else if code == 181 {
            Some(UnitId::Moonlit)
        } else if code == 182 {
            Some(UnitId::Fogwall)
        } else if code == 183 {
            Some(UnitId::Spiderweb)
        } else if code == 184 {
            Some(UnitId::Gravitation)
        } else if code == 185 {
            Some(UnitId::Hermode)
        } else if code == 186 {
            Some(UnitId::Kaensin)
        } else if code == 187 {
            Some(UnitId::Suiton)
        } else if code == 188 {
            Some(UnitId::Tatamigaeshi)
        } else if code == 189 {
            Some(UnitId::Kaen)
        } else if code == 190 {
            Some(UnitId::GrounddriftWind)
        } else if code == 191 {
            Some(UnitId::GrounddriftDark)
        } else if code == 192 {
            Some(UnitId::GrounddriftPoison)
        } else if code == 193 {
            Some(UnitId::GrounddriftWater)
        } else if code == 194 {
            Some(UnitId::GrounddriftFire)
        } else if code == 195 {
            Some(UnitId::Deathwave)
        } else if code == 196 {
            Some(UnitId::Waterattack)
        } else if code == 197 {
            Some(UnitId::Windattack)
        } else if code == 198 {
            Some(UnitId::Earthquake)
        } else if code == 199 {
            Some(UnitId::Evilland)
        } else if code == 200 {
            Some(UnitId::DarkRunner)
        } else if code == 201 {
            Some(UnitId::DarkTransfer)
        } else if code == 202 {
            Some(UnitId::Epiclesis)
        } else if code == 203 {
            Some(UnitId::Earthstrain)
        } else if code == 204 {
            Some(UnitId::Manhole)
        } else if code == 205 {
            Some(UnitId::Dimensiondoor)
        } else if code == 206 {
            Some(UnitId::Chaospanic)
        } else if code == 207 {
            Some(UnitId::Maelstrom)
        } else if code == 208 {
            Some(UnitId::Bloodylust)
        } else if code == 209 {
            Some(UnitId::Feintbomb)
        } else if code == 210 {
            Some(UnitId::Magentatrap)
        } else if code == 211 {
            Some(UnitId::Cobalttrap)
        } else if code == 212 {
            Some(UnitId::Maizetrap)
        } else if code == 213 {
            Some(UnitId::Verduretrap)
        } else if code == 214 {
            Some(UnitId::Firingtrap)
        } else if code == 215 {
            Some(UnitId::Iceboundtrap)
        } else if code == 216 {
            Some(UnitId::Electricshocker)
        } else if code == 217 {
            Some(UnitId::Clusterbomb)
        } else if code == 218 {
            Some(UnitId::Reverberation)
        } else if code == 219 {
            Some(UnitId::SevereRainstorm)
        } else if code == 220 {
            Some(UnitId::Firewalk)
        } else if code == 221 {
            Some(UnitId::Electricwalk)
        } else if code == 222 {
            Some(UnitId::Netherworld)
        } else if code == 223 {
            Some(UnitId::PsychicWave)
        } else if code == 224 {
            Some(UnitId::CloudKill)
        } else if code == 225 {
            Some(UnitId::Poisonsmoke)
        } else if code == 226 {
            Some(UnitId::Neutralbarrier)
        } else if code == 227 {
            Some(UnitId::Stealthfield)
        } else if code == 228 {
            Some(UnitId::Warmer)
        } else if code == 229 {
            Some(UnitId::ThornsTrap)
        } else if code == 230 {
            Some(UnitId::Wallofthorn)
        } else if code == 231 {
            Some(UnitId::DemonicFire)
        } else if code == 232 {
            Some(UnitId::FireExpansionSmokePowder)
        } else if code == 233 {
            Some(UnitId::FireExpansionTearGas)
        } else if code == 234 {
            Some(UnitId::HellsPlant)
        } else if code == 235 {
            Some(UnitId::VacuumExtreme)
        } else if code == 236 {
            Some(UnitId::Banding)
        } else if code == 237 {
            Some(UnitId::FireMantle)
        } else if code == 238 {
            Some(UnitId::WaterBarrier)
        } else if code == 239 {
            Some(UnitId::Zephyr)
        } else if code == 240 {
            Some(UnitId::PowerOfGaia)
        } else if code == 241 {
            Some(UnitId::FireInsignia)
        } else if code == 242 {
            Some(UnitId::WaterInsignia)
        } else if code == 243 {
            Some(UnitId::WindInsignia)
        } else if code == 244 {
            Some(UnitId::EarthInsignia)
        } else if code == 245 {
            Some(UnitId::PoisonMist)
        } else if code == 246 {
            Some(UnitId::LavaSlide)
        } else if code == 247 {
            Some(UnitId::VolcanicAsh)
        } else if code == 248 {
            Some(UnitId::ZenkaiWater)
        } else if code == 249 {
            Some(UnitId::ZenkaiLand)
        } else if code == 250 {
            Some(UnitId::ZenkaiFire)
        } else if code == 251 {
            Some(UnitId::ZenkaiWind)
        } else if code == 252 {
            Some(UnitId::Makibishi)
        } else if code == 253 {
            Some(UnitId::Venomfog)
        } else if code == 254 {
            Some(UnitId::Icemine)
        } else if code == 255 {
            Some(UnitId::Flamecross)
        } else if code == 256 {
            Some(UnitId::Hellburning)
        } else if code == 257 {
            Some(UnitId::MagmaEruption)
        } else if code == 258 {
            Some(UnitId::KingsGrace)
        } else if code == 259 {
            Some(UnitId::GlitteringGreed)
        } else if code == 260 {
            Some(UnitId::BTrap)
        } else if code == 261 {
            Some(UnitId::FireRain)
        } else if code == 262 {
            Some(UnitId::Catnippowder)
        } else if code == 263 {
            Some(UnitId::Nyanggrass)
        } else if code == 264 {
            Some(UnitId::Creatingstar)
        } else if code == 265 {
            Some(UnitId::Dummy0)
        } else if code == 266 {
            Some(UnitId::RainOfCrystal)
        } else if code == 267 {
            Some(UnitId::MysteryIllusion)
        } else if code == 269 {
            Some(UnitId::StrantumTremor)
        } else if code == 270 {
            Some(UnitId::ViolentQuake)
        } else if code == 271 {
            Some(UnitId::AllBloom)
        } else if code == 272 {
            Some(UnitId::TornadoStorm)
        } else if code == 273 {
            Some(UnitId::FloralFlareRoad)
        } else if code == 274 {
            Some(UnitId::AstralStrike)
        } else if code == 275 {
            Some(UnitId::CrossRain)
        } else if code == 276 {
            Some(UnitId::PneumaticusProcella)
        } else if code == 277 {
            Some(UnitId::AbyssSquare)
        } else if code == 278 {
            Some(UnitId::AcidifiedZoneWater)
        } else if code == 279 {
            Some(UnitId::AcidifiedZoneGround)
        } else if code == 280 {
            Some(UnitId::AcidifiedZoneWind)
        } else if code == 281 {
            Some(UnitId::AcidifiedZoneFire)
        } else if code == 282 {
            Some(UnitId::LightningLand)
        } else if code == 283 {
            Some(UnitId::VenomSwamp)
        } else if code == 284 {
            Some(UnitId::Conflagration)
        } else if code == 285 {
            Some(UnitId::CaneOfEvilEye)
        } else if code == 286 {
            Some(UnitId::TwinklingGalaxy)
        } else if code == 287 {
            Some(UnitId::StarCannon)
        } else if code == 288 {
            Some(UnitId::GrenadesDropping)
        } else if code == 290 {
            Some(UnitId::Fuumashouaku)
        } else if code == 291 {
            Some(UnitId::MissionBombard)
        } else if code == 292 {
            Some(UnitId::TotemOfTutelary)
        } else if code == 293 {
            Some(UnitId::HyunRoksBreeze)
        } else if code == 294 {
            Some(UnitId::Shinkirou)
        } else if code == 295 {
            Some(UnitId::JackFrostNova)
        } else if code == 296 {
            Some(UnitId::GroundGravitation)
        } else if code == 298 {
            Some(UnitId::Kunaiwaikyoku)
        } else if code == 20852 {
            Some(UnitId::Deepblindtrap)
        } else if code == 20853 {
            Some(UnitId::Solidtrap)
        } else if code == 20854 {
            Some(UnitId::Swifttrap)
        } else if code == 20855 {
            Some(UnitId::Flametrap)
        } else if code == 400 {
            Some(UnitId::Max)
        } else {
            None
        }
    }
}

impl ByteConvertable for UnitId {
    type Model = UnitId;

    open spec fn model(&self) -> UnitId {
        *self
    }

    open spec fn accepts(length_hint: Option<usize>) -> bool {
        length_hint is None
    }

    open spec fn decoding(data: Seq<u8>, at: int, length_hint: Option<usize>) -> Result<
        (UnitId, nat),
        ConversionError,
    > {
        match u32::decoding(data, at, None) {
            Ok((code, length)) => match UnitId::of_code(code) {
                Some(value) => Ok((value, length)),
                None => Err(ConversionError::Invalid),
            },
            Err(error) => Err(error),
        }
    }

    open spec fn encodable(value: UnitId, length_hint: Option<usize>) -> bool {
        true
    }

    /// A variant comes back as it is where it is the first of its number.
    open spec fn faithful(value: UnitId, length_hint: Option<usize>) -> bool {
        UnitId::of_code(value.code()) == Some(value)
    }

    open spec fn encoding(value: UnitId, length_hint: Option<usize>) -> Seq<u8> {
        u32::encoding(value.code(), None)
    }

    #[verifier::rlimit(100)]
    fn from_bytes(byte_stream: &mut ByteStream, length_hint: Option<usize>) -> (result: Result<
        Self,
        ConversionError,
    >) {
        let mut cursor = byte_stream.fork();
        let code = u32::from_bytes(&mut cursor, None)?;
        let value = match code {
            126 => UnitId::Safetywall,
            127 => UnitId::Firewall,
            128 => UnitId::WarpWaiting,
            129 => UnitId::WarpActive,
            130 => UnitId::Benedictio,
            131 => UnitId::Sanctuary,
            132 => UnitId::Magnus,
            133 => UnitId::Pneuma,
            134 => UnitId::Dummyskill,
            135 => UnitId::FirepillarWaiting,
            136 => UnitId::FirepillarActive,
            137 => UnitId::HiddenTrap,
            138 => UnitId::Trap,
            139 => UnitId::HiddenWarpNpc,
            140 => UnitId::UsedTraps,
            141 => UnitId::Icewall,
            142 => UnitId::Quagmire,
            143 => UnitId::Blastmine,
            144 => UnitId::Skidtrap,
            145 => UnitId::Anklesnare,
            146 => UnitId::Venomdust,
            147 => UnitId::Landmine,
            148 => UnitId::Shockwave,
            149 => UnitId::Sandman,
            150 => UnitId::Flasher,
            151 => UnitId::Freezingtrap,
            152 => UnitId::Claymoretrap,
            153 => UnitId::Talkiebox,
            154 => UnitId::Volcano,
            155 => UnitId::Deluge,
            156 => UnitId::Violentgale,
            157 => UnitId::Landprotector,
            158 => UnitId::Lullaby,
            159 => UnitId::Richmankim,
            160 => UnitId::Eternalchaos,
            161 => UnitId::Drumbattlefield,
            162 => UnitId::Ringnibelungen,
            163 => UnitId::Rokisweil,
            164 => UnitId::Intoabyss,
            165 => UnitId::Siegfried,
            166 => UnitId::Dissonance,
            167 => UnitId::Whistle,
            168 => UnitId::Assassincross,
            169 => UnitId::Poembragi,
            170 => UnitId::Appleidun,
            171 => UnitId::Uglydance,
            172 => UnitId::Humming,
            173 => UnitId::Dontforgetme,
            174 => UnitId::Fortunekiss,
            175 => UnitId::Serviceforyou,
            176 => UnitId::Graffiti,
            177 => UnitId::Demonstration,
            178 => UnitId::Callfamily,
            179 => UnitId::Gospel,
            180 => UnitId::Basilica,
            181 => UnitId::Moonlit,
            182 => UnitId::Fogwall,
            183 => UnitId::Spiderweb,
            184 => UnitId::Gravitation,
            185 => UnitId::Hermode,
            186 => UnitId::Kaensin,
            187 => UnitId::Suiton,
            188 => UnitId::Tatamigaeshi,
            189 => UnitId::Kaen,
            190 => UnitId::GrounddriftWind,
            191 => UnitId::GrounddriftDark,
            192 => UnitId::GrounddriftPoison,
            193 => UnitId::GrounddriftWater,
            194 => UnitId::GrounddriftFire,
            195 => UnitId::Deathwave,
            196 => UnitId::Waterattack,
            197 => UnitId::Windattack,
            198 => UnitId::Earthquake,
            199 => UnitId::Evilland,
            200 => UnitId::DarkRunner,
            201 => UnitId::DarkTransfer,
            202 => UnitId::Epiclesis,
            203 => UnitId::Earthstrain,
            204 => UnitId::Manhole,
            205 => UnitId::Dimensiondoor,
            206 => UnitId::Chaospanic,
            207 => UnitId::Maelstrom,
            208 => UnitId::Bloodylust,
            209 => UnitId::Feintbomb,
            210 => UnitId::Magentatrap,
            211 => UnitId::Cobalttrap,
            212 => UnitId::Maizetrap,
            213 => UnitId::Verduretrap,
            214 => UnitId::Firingtrap,
            215 => UnitId::Iceboundtrap,
            216 => UnitId::Electricshocker,
            217 => UnitId::Clusterbomb,
            218 => UnitId::Reverberation,
            219 => UnitId::SevereRainstorm,
            220 => UnitId::Firewalk,
            221 => UnitId::Electricwalk,
            222 => UnitId::Netherworld,
            223 => UnitId::PsychicWave,
            224 => UnitId::CloudKill,
            225 => UnitId::Poisonsmoke,
            226 => UnitId::Neutralbarrier,
            227 => UnitId::Stealthfield,
            228 => UnitId::Warmer,
            229 => UnitId::ThornsTrap,
            230 => UnitId::Wallofthorn,
            231 => UnitId::DemonicFire,
            232 => UnitId::FireExpansionSmokePowder,
            233 => UnitId::FireExpansionTearGas,
            234 => UnitId::HellsPlant,
            235 => UnitId::VacuumExtreme,
            236 => UnitId::Banding,
            237 => UnitId::FireMantle,
            238 => UnitId::WaterBarrier,
            239 => UnitId::Zephyr,
            240 => UnitId::PowerOfGaia,
            241 => UnitId::FireInsignia,
            242 => UnitId::WaterInsignia,
            243 => UnitId::WindInsignia,
            244 => UnitId::EarthInsignia,
            245 => UnitId::PoisonMist,
            246 => UnitId::LavaSlide,
            247 => UnitId::VolcanicAsh,
            248 => UnitId::ZenkaiWater,
            249 => UnitId::ZenkaiLand,
            250 => UnitId::ZenkaiFire,
            251 => UnitId::ZenkaiWind,
            252 => UnitId::Makibishi,
            253 => UnitId::Venomfog,
            254 => UnitId::Icemine,
            255 => UnitId::Flamecross,
            256 => UnitId::Hellburning,
            257 => UnitId::MagmaEruption,
            258 => UnitId::KingsGrace,
            259 => UnitId::GlitteringGreed,
            260 => UnitId::BTrap,
            261 => UnitId::FireRain,
            262 => UnitId::Catnippowder,
            263 => UnitId::Nyanggrass,
            264 => UnitId::Creatingstar,
            265 => UnitId::Dummy0,
            266 => UnitId::RainOfCrystal,
            267 => UnitId::MysteryIllusion,
            269 => UnitId::StrantumTremor,
            270 => UnitId::ViolentQuake,
            271 => UnitId::AllBloom,
            272 => UnitId::TornadoStorm,
            273 => UnitId::FloralFlareRoad,
            274 => UnitId::AstralStrike,
            275 => UnitId::CrossRain,
            276 => UnitId::PneumaticusProcella,
            277 => UnitId::AbyssSquare,
            278 => UnitId::AcidifiedZoneWater,
            279 => UnitId::AcidifiedZoneGround,
            280 => UnitId::AcidifiedZoneWind,
            281 => UnitId::AcidifiedZoneFire,
            282 => UnitId::LightningLand,
            283 => UnitId::VenomSwamp,
            284 => UnitId::Conflagration,
            285 => UnitId::CaneOfEvilEye,
            286 => UnitId::TwinklingGalaxy,
            287 => UnitId::StarCannon,
            288 => UnitId::GrenadesDropping,
            290 => UnitId::Fuumashouaku,
            291 => UnitId::MissionBombard,
            292 => UnitId::TotemOfTutelary,
            293 => UnitId::HyunRoksBreeze,
            294 => UnitId::Shinkirou,
            295 => UnitId::JackFrostNova,
            296 => UnitId::GroundGravitation,
            298 => UnitId::Kunaiwaikyoku,
            20852 => UnitId::Deepblindtrap,
            20853 => UnitId::Solidtrap,
            20854 => UnitId::Swifttrap,
            20855 => UnitId::Flametrap,
            400 => UnitId::Max,
            _ => return Err(ConversionError::Invalid),
        };
        byte_stream.follow(&cursor);
        Ok(value)
    }

    fn to_bytes(&self, length_hint: Option<usize>) -> (bytes: Vec<u8>) {
        let code: u32 = match self {
            UnitId::Safetywall => 126,
            UnitId::Firewall => 127,
            UnitId::WarpWaiting => 128,
            UnitId::WarpActive => 129,
            UnitId::Benedictio => 130,
            UnitId::Sanctuary => 131,
            UnitId::Magnus => 132,
            UnitId::Pneuma => 133,
            UnitId::Dummyskill => 134,
            UnitId::FirepillarWaiting => 135,
            UnitId::FirepillarActive => 136,
            UnitId::HiddenTrap => 137,
            UnitId::Trap => 138,
            UnitId::HiddenWarpNpc => 139,
            UnitId::UsedTraps => 140,
            UnitId::Icewall => 141,
            UnitId::Quagmire => 142,
            UnitId::Blastmine => 143,
            UnitId::Skidtrap => 144,
            UnitId::Anklesnare => 145,
            UnitId::Venomdust => 146,
            UnitId::Landmine => 147,
            UnitId::Shockwave => 148,
            UnitId::Sandman => 149,
            UnitId::Flasher => 150,
            UnitId::Freezingtrap => 151,
            UnitId::Claymoretrap => 152,
            UnitId::Talkiebox => 153,
            UnitId::Volcano => 154,
            UnitId::Deluge => 155,
            UnitId::Violentgale => 156,
            UnitId::Landprotector => 157,
            UnitId::Lullaby => 158,
            UnitId::Richmankim => 159,
            UnitId::Eternalchaos => 160,
            UnitId::Drumbattlefield => 161,
            UnitId::Ringnibelungen => 162,
            UnitId::Rokisweil => 163,
            UnitId::Intoabyss => 164,
            UnitId::Siegfried => 165,
            UnitId::Dissonance => 166,
            UnitId::Whistle => 167,
            UnitId::Assassincross => 168,
            UnitId::Poembragi => 169,
            UnitId::Appleidun => 170,
            UnitId::Uglydance => 171,
            UnitId::Humming => 172,
            UnitId::Dontforgetme => 173,
            UnitId::Fortunekiss => 174,
            UnitId::Serviceforyou => 175,
            UnitId::Graffiti => 176,
            UnitId::Demonstration => 177,
            UnitId::Callfamily => 178,
            UnitId::Gospel => 179,
            UnitId::Basilica => 180,
            UnitId::Moonlit => 181,
            UnitId::Fogwall => 182,
            UnitId::Spiderweb => 183,
            UnitId::Gravitation => 184,
            UnitId::Hermode => 185,
            UnitId::Kaensin => 186,
            UnitId::Suiton => 187,
            UnitId::Tatamigaeshi => 188,
            UnitId::Kaen => 189,
            UnitId::GrounddriftWind => 190,
            UnitId::GrounddriftDark => 191,
            UnitId::GrounddriftPoison => 192,
            UnitId::GrounddriftWater => 193,
            UnitId::GrounddriftFire => 194,
            UnitId::Deathwave => 195,
            UnitId::Waterattack => 196,
            UnitId::Windattack => 197,
            UnitId::Earthquake => 198,
            UnitId::Evilland => 199,
            UnitId::DarkRunner => 200,
            UnitId::DarkTransfer => 201,
            UnitId::Epiclesis => 202,
            UnitId::Earthstrain => 203,
            UnitId::Manhole => 204,
            UnitId::Dimensiondoor => 205,
            UnitId::Chaospanic => 206,
            UnitId::Maelstrom => 207,
            UnitId::Bloodylust => 208,
            UnitId::Feintbomb => 209,
            UnitId::Magentatrap => 210,
            UnitId::Cobalttrap => 211,
            UnitId::Maizetrap => 212,
            UnitId::Verduretrap => 213,
            UnitId::Firingtrap => 214,
            UnitId::Iceboundtrap => 215,
            UnitId::Electricshocker => 216,
            UnitId::Clusterbomb => 217,
            UnitId::Reverberation => 218,
            UnitId::SevereRainstorm => 219,
            UnitId::Firewalk => 220,
            UnitId::Electricwalk => 221,
            UnitId::Netherworld => 222,
            UnitId::PsychicWave => 223,
            UnitId::CloudKill => 224,
            UnitId::Poisonsmoke => 225,
            UnitId::Neutralbarrier => 226,
            UnitId::Stealthfield => 227,
            UnitId::Warmer => 228,
            UnitId::ThornsTrap => 229,
            UnitId::Wallofthorn => 230,
            UnitId::DemonicFire => 231,
            UnitId::FireExpansionSmokePowder => 232,
            UnitId::FireExpansionTearGas => 233,
            UnitId::HellsPlant => 234,
            UnitId::VacuumExtreme => 235,
            UnitId::Banding => 236,
            UnitId::FireMantle => 237,
            UnitId::WaterBarrier => 238,
            UnitId::Zephyr => 239,
            UnitId::PowerOfGaia => 240,
            UnitId::FireInsignia => 241,
            UnitId::WaterInsignia => 242,
            UnitId::WindInsignia => 243,
            UnitId::EarthInsignia => 244,
            UnitId::PoisonMist => 245,
            UnitId::LavaSlide => 246,
            UnitId::VolcanicAsh => 247,
            UnitId::ZenkaiWater => 248,
            UnitId::ZenkaiLand => 249,
            UnitId::ZenkaiFire => 250,
            UnitId::ZenkaiWind => 251,
            UnitId::Makibishi => 252,
            UnitId::Venomfog => 253,
            UnitId::Icemine => 254,
            UnitId::Flamecross => 255,
            UnitId::Hellburning => 256,
            UnitId::MagmaEruption => 257,
            UnitId::KingsGrace => 258,
            UnitId::GlitteringGreed => 259,
            UnitId::BTrap => 260,
            UnitId::FireRain => 261,
            UnitId::Catnippowder => 262,
            UnitId::Nyanggrass => 263,
            UnitId::Creatingstar => 264,
            UnitId::Dummy0 => 265,
            UnitId::RainOfCrystal => 266,
            UnitId::MysteryIllusion => 267,
            UnitId::StrantumTremor => 269,
            UnitId::ViolentQuake => 270,
            UnitId::AllBloom => 271,
            UnitId::TornadoStorm => 272,
            UnitId::FloralFlareRoad => 273,
            UnitId::AstralStrike => 274,
            UnitId::CrossRain => 275,
            UnitId::PneumaticusProcella => 276,
            UnitId::AbyssSquare => 277,
            UnitId::AcidifiedZoneWater => 278,
            UnitId::AcidifiedZoneGround => 279,
            UnitId::AcidifiedZoneWind => 280,
            UnitId::AcidifiedZoneFire => 281,
            UnitId::LightningLand => 282,
            UnitId::VenomSwamp => 283,
            UnitId::Conflagration => 284,
            UnitId::CaneOfEvilEye => 285,
            UnitId::TwinklingGalaxy => 286,
            UnitId::StarCannon => 287,
            UnitId::GrenadesDropping => 288,
            UnitId::Fuumashouaku => 290,
            UnitId::MissionBombard => 291,
            UnitId::TotemOfTutelary => 292,
            UnitId::HyunRoksBreeze => 293,
            UnitId::Shinkirou => 294,
            UnitId::JackFrostNova => 295,
            UnitId::GroundGravitation => 296,
            UnitId::Kunaiwaikyoku => 298,
            UnitId::Deepblindtrap => 20852,
            UnitId::Solidtrap => 20853,
            UnitId::Swifttrap => 20854,
            UnitId::Flametrap => 20855,
            UnitId::GdLeadership => 193,
            UnitId::GdGlorywounds => 194,
            UnitId::GdSoulcold => 195,
            UnitId::GdHawkeyes => 196,
            UnitId::Max => 400,
        };
        code.to_bytes(None)
    }

    proof fn lemma_round_trip(
        value: UnitId,
        length_hint: Option<usize>,
        data: Seq<u8>,
        at: int,
    ) {
        u32::lemma_round_trip(value.code(), None, data, at);
    }
}

impl FixedByteSize for UnitId {
    open spec fn size() -> nat {
        4
    }

    fn size_in_bytes() -> (size: usize) {
        4
    }

    proof fn lemma_fixed_size(data: Seq<u8>, at: int, value: UnitId) {
        assert(Self::size() == 4);
    }
}

#[derive(Clone, Copy, Debug)]
pub struct NotifySkillUnitPacket {
    pub lenght: u16,
    pub entity_id: EntityId,
    pub creator_id: EntityId,
    pub position: Vector2<u16>,
    pub unit_id: UnitId,
    pub range: u8,
    pub visible: u8,
    pub skill_level: u8,
}

impl Packet for NotifySkillUnitPacket {
    type Model = NotifySkillUnitPacket;

    const PACKET_NAME: &'static str = "NotifySkillUnitPacket";

    const IS_PING: bool = false;

    open spec fn model(&self) -> NotifySkillUnitPacket {
        *self
    }

    open spec fn packet_header() -> u16 {
        0x09ca
    }

    #[verifier::opaque]
    open spec fn payload_decoding(data: Seq<u8>, at: int) -> Result<
        (NotifySkillUnitPacket, nat),
        ConversionError,
    > {
        let lenght = u16::decoding(data, at, None);
        let at_entity_id = behind(at, lenght);
        let entity_id = EntityId::decoding(data, at_entity_id, None);
        let at_creator_id = behind(at_entity_id, entity_id);
        let creator_id = EntityId::decoding(data, at_creator_id, None);
        let at_position = behind(at_creator_id, creator_id);
        let position = Vector2::<u16>::decoding(data, at_position, None);
        let at_unit_id = behind(at_position, position);
        let unit_id = UnitId::decoding(data, at_unit_id, None);
        let at_range = behind(at_unit_id, unit_id);
        let range = u8::decoding(data, at_range, None);
        let at_visible = behind(at_range, range);
        let visible = u8::decoding(data, at_visible, None);
        let at_skill_level = behind(at_visible, visible);
        let skill_level = u8::decoding(data, at_skill_level, None);
        let behind_all = behind(at_skill_level, skill_level);
        if lenght is Err {
            Err(lenght->Err_0)
        } else if entity_id is Err {
            Err(entity_id->Err_0)
        } else if creator_id is Err {
            Err(creator_id->Err_0)
        } else if position is Err {
            Err(position->Err_0)
        } else if unit_id is Err {
            Err(unit_id->Err_0)
        } else if range is Err {
            Err(range->Err_0)
        } else if visible is Err {
            Err(visible->Err_0)
        } else if skill_level is Err {
            Err(skill_level->Err_0)
        } else {
            Ok(
                (
                    NotifySkillUnitPacket {
                        lenght: lenght->Ok_0.0,
                        entity_id: entity_id->Ok_0.0,
                        creator_id: creator_id->Ok_0.0,
                        position: position->Ok_0.0,
                        unit_id: unit_id->Ok_0.0,
                        range: range->Ok_0.0,
                        visible: visible->Ok_0.0,
                        skill_level: skill_level->Ok_0.0,
                    },
                    (behind_all - at) as nat,
                ),
            )
        }
    }

    open spec fn encodable(value: NotifySkillUnitPacket) -> bool {
        true
    }

    open spec fn faithful(value: NotifySkillUnitPacket) -> bool {
        UnitId::faithful(value.unit_id, None)
    }

    #[verifier::opaque]
    open spec fn payload_encoding(value: NotifySkillUnitPacket) -> Seq<u8> {
        u16::encoding(value.lenght, None)
            + EntityId::encoding(value.entity_id, None)
            + EntityId::encoding(value.creator_id, None)
            + Vector2::<u16>::encoding(value.position, None)
            + UnitId::encoding(value.unit_id, None)
            + u8::encoding(value.range, None)
            + u8::encoding(value.visible, None)
            + u8::encoding(value.skill_level, None)
    }

    fn header() -> (header: u16) {
        0x09ca
    }

    fn payload_from_bytes(byte_stream: &mut ByteStream) -> (result: Result<
        Self,
        ConversionError,
    >) {
        proof {
            reveal(<NotifySkillUnitPacket as Packet>::payload_decoding);
        }
        let mut cursor = byte_stream.fork();
        let lenght = u16::from_bytes(&mut cursor, None)?;
        let entity_id = EntityId::from_bytes(&mut cursor, None)?;
        let creator_id = EntityId::from_bytes(&mut cursor, None)?;
        let position = Vector2::<u16>::from_bytes(&mut cursor, None)?;
        let unit_id = UnitId::from_bytes(&mut cursor, None)?;
        let range = u8::from_bytes(&mut cursor, None)?;
        let visible = u8::from_bytes(&mut cursor, None)?;
        let skill_level = u8::from_bytes(&mut cursor, None)?;
        byte_stream.follow(&cursor);
        Ok(NotifySkillUnitPacket {
            lenght,
            entity_id,
            creator_id,
            position,
            unit_id,
            range,
            visible,
            skill_level,
        })
    }

    fn payload_to_bytes(&self) -> (bytes: Vec<u8>) {
        proof {
            reveal(<NotifySkillUnitPacket as Packet>::payload_encoding);
        }
        let mut bytes = self.lenght.to_bytes(None);
        let mut piece = self.entity_id.to_bytes(None);
        bytes.append(&mut piece);
        let mut piece = self.creator_id.to_bytes(None);
        bytes.append(&mut piece);
        let mut piece = self.position.to_bytes(None);
        bytes.append(&mut piece);
        let mut piece = self.unit_id.to_bytes(None);
        bytes.append(&mut piece);
        let mut piece = self.range.to_bytes(None);
        bytes.append(&mut piece);
        let mut piece = self.visible.to_bytes(None);
        bytes.append(&mut piece);
        let mut piece = self.skill_level.to_bytes(None);
        bytes.append(&mut piece);
        bytes
    }

    proof fn lemma_payload_round_trip(value: NotifySkillUnitPacket, data: Seq<u8>, at: int) {
        reveal(<NotifySkillUnitPacket as Packet>::payload_decoding);
        reveal(<NotifySkillUnitPacket as Packet>::payload_encoding);
        let piece_0 = u16::encoding(value.lenght, None);
        let piece_1 = EntityId::encoding(value.entity_id, None);
        let piece_2 = EntityId::encoding(value.creator_id, None);
        let piece_3 = Vector2::<u16>::encoding(value.position, None);
        let piece_4 = UnitId::encoding(value.unit_id, None);
        let piece_5 = u8::encoding(value.range, None);
        let piece_6 = u8::encoding(value.visible, None);
        let piece_7 = u8::encoding(value.skill_level, None);
        let front_1 = piece_0;
        let front_2 = front_1 + piece_1;
        let front_3 = front_2 + piece_2;
        let front_4 = front_3 + piece_3;
        let front_5 = front_4 + piece_4;
        let front_6 = front_5 + piece_5;
        let front_7 = front_6 + piece_6;
        lemma_holds_at_split(data, at, front_7, piece_7);
        lemma_holds_at_split(data, at, front_6, piece_6);
        lemma_holds_at_split(data, at, front_5, piece_5);
        lemma_holds_at_split(data, at, front_4, piece_4);
        lemma_holds_at_split(data, at, front_3, piece_3);
        lemma_holds_at_split(data, at, front_2, piece_2);
        lemma_holds_at_split(data, at, front_1, piece_1);
        u16::lemma_round_trip(value.lenght, None, data, at);
        EntityId::lemma_round_trip(value.entity_id, None, data, at + front_1.len());
        EntityId::lemma_round_trip(value.creator_id, None, data, at + front_2.len());
        Vector2::<u16>::lemma_round_trip(value.position, None, data, at + front_3.len());
        UnitId::lemma_round_trip(value.unit_id, None, data, at + front_4.len());
        u8::lemma_round_trip(value.range, None, data, at + front_5.len());
        u8::lemma_round_trip(value.visible, None, data, at + front_6.len());
        u8::lemma_round_trip(value.skill_level, None, data, at + front_7.len());
    }
}

#[derive(Clone, Copy, Debug)]
pub struct NotifyGroundSkillPacket {
    pub skill_id: SkillId,
    pub entity_id: EntityId,
    pub level: SkillLevel,
    pub position: Vector2<u16>,
    pub start_time: ClientTick,
}

impl Packet for NotifyGroundSkillPacket {
    type Model = NotifyGroundSkillPacket;

    const PACKET_NAME: &'static str = "NotifyGroundSkillPacket";

    const IS_PING: bool = false;

    open spec fn model(&self) -> NotifyGroundSkillPacket {
        *self
    }

    open spec fn packet_header() -> u16 {
        0x0117
    }

    #[verifier::opaque]
    open spec fn payload_decoding(data: Seq<u8>, at: int) -> Result<
        (NotifyGroundSkillPacket, nat),
        ConversionError,
    > {
        let skill_id = SkillId::decoding(data, at, None);
        let at_entity_id = behind(at, skill_id);
        let entity_id = EntityId::decoding(data, at_entity_id, None);
        let at_level = behind(at_entity_id, entity_id);
        let level = SkillLevel::decoding(data, at_level, None);
        let at_position = behind(at_level, level);
        let position = Vector2::<u16>::decoding(data, at_position, None);
        let at_start_time = behind(at_position, position);
        let start_time = ClientTick::decoding(data, at_start_time, None);
        let behind_all = behind(at_start_time, start_time);
        if skill_id is Err {
            Err(skill_id->Err_0)
        } else if entity_id is Err {
            Err(entity_id->Err_0)
        } else if level is Err {
            Err(level->Err_0)
        } else if position is Err {
            Err(position->Err_0)
        } else if start_time is Err {
            Err(start_time->Err_0)
        } else {
            Ok(
                (
                    NotifyGroundSkillPacket {
                        skill_id: skill_id->Ok_0.0,
                        entity_id: entity_id->Ok_0.0,
                        level: level->Ok_0.0,
                        position: position->Ok_0.0,
                        start_time: start_time->Ok_0.0,
                    },
                    (behind_all - at) as nat,
                ),
            )
        }
    }

    open spec fn encodable(value: NotifyGroundSkillPacket) -> bool {
        true
    }

    #[verifier::opaque]
    open spec fn payload_encoding(value: NotifyGroundSkillPacket) -> Seq<u8> {
        SkillId::encoding(value.skill_id, None)
            + EntityId::encoding(value.entity_id, None)
            + SkillLevel::encoding(value.level, None)
            + Vector2::<u16>::encoding(value.position, None)
            + ClientTick::encoding(value.start_time, None)
    }

    fn header() -> (header: u16) {
        0x0117
    }

    fn payload_from_bytes(byte_stream: &mut ByteStream) -> (result: Result<
        Self,
        ConversionError,
    >) {
        proof {
            reveal(<NotifyGroundSkillPacket as Packet>::payload_decoding);
        }
        let mut cursor = byte_stream.fork();
        let skill_id = SkillId::from_bytes(&mut cursor, None)?;
        let entity_id = EntityId::from_bytes(&mut cursor, None)?;
        let level = SkillLevel::from_bytes(&mut cursor, None)?;
        let position = Vector2::<u16>::from_bytes(&mut cursor, None)?;
        let start_time = ClientTick::from_bytes(&mut cursor, None)?;
        byte_stream.follow(&cursor);
        Ok(NotifyGroundSkillPacket { skill_id, entity_id, level, position, start_time })
    }

    fn payload_to_bytes(&self) -> (bytes: Vec<u8>) {
        proof {
            reveal(<NotifyGroundSkillPacket as Packet>::payload_encoding);
        }
        let mut bytes = self.skill_id.to_bytes(None);
        let mut piece = self.entity_id.to_bytes(None);
        bytes.append(&mut piece);
        let mut piece = self.level.to_bytes(None);
        bytes.append(&mut piece);
        let mut piece = self.position.to_bytes(None);
        bytes.append(&mut piece);
        let mut piece = self.start_time.to_bytes(None);
        bytes.append(&mut piece);
        bytes
    }

    proof fn lemma_payload_round_trip(value: NotifyGroundSkillPacket, data: Seq<u8>, at: int) {
        reveal(<NotifyGroundSkillPacket as Packet>::payload_decoding);
        reveal(<NotifyGroundSkillPacket as Packet>::payload_encoding);
        let piece_0 = SkillId::encoding(value.skill_id, None);
        let piece_1 = EntityId::encoding(value.entity_id, None);
        let piece_2 = SkillLevel::encoding(value.level, None);
        let piece_3 = Vector2::<u16>::encoding(value.position, None);
        let piece_4 = ClientTick::encoding(value.start_time, None);
        let front_1 = piece_0;
        let front_2 = front_1 + piece_1;
        let front_3 = front_2 + piece_2;
        let front_4 = front_3 + piece_3;
        lemma_holds_at_split(data, at, front_4, piece_4);
        lemma_holds_at_split(data, at, front_3, piece_3);
        lemma_holds_at_split(data, at, front_2, piece_2);
        lemma_holds_at_split(data, at, front_1, piece_1);
        SkillId::lemma_round_trip(value.skill_id, None, data, at);
        EntityId::lemma_round_trip(value.entity_id, None, data, at + front_1.len());
        SkillLevel::lemma_round_trip(value.level, None, data, at + front_2.len());
        Vector2::<u16>::lemma_round_trip(value.position, None, data, at + front_3.len());
        ClientTick::lemma_round_trip(value.start_time, None, data, at + front_4.len());
    }
}

#[derive(Clone, Copy, Debug)]
pub struct SkillUnitDisappearPacket {
    pub entity_id: EntityId,
}

impl Packet for SkillUnitDisappearPacket {
    type Model = SkillUnitDisappearPacket;

    const PACKET_NAME: &'static str = "SkillUnitDisappearPacket";

    const IS_PING: bool = false;

    open spec fn model(&self) -> SkillUnitDisappearPacket {
        *self
    }

    open spec fn packet_header() -> u16 {
        0x0120
    }

    #[verifier::opaque]
    open spec fn payload_decoding(data: Seq<u8>, at: int) -> Result<
        (SkillUnitDisappearPacket, nat),
        ConversionError,
    > {
        let entity_id = EntityId::decoding(data, at, None);
        let behind_all = behind(at, entity_id);
        if entity_id is Err {
            Err(entity_id->Err_0)
        } else {
            Ok(
                (
                    SkillUnitDisappearPacket {
                        entity_id: entity_id->Ok_0.0,
                    },
                    (behind_all - at) as nat,
                ),
            )
        }
    }

    open spec fn encodable(value: SkillUnitDisappearPacket) -> bool {
        true
    }

    #[verifier::opaque]
    open spec fn payload_encoding(value: SkillUnitDisappearPacket) -> Seq<u8> {
        EntityId::encoding(value.entity_id, None)
    }

    fn header() -> (header: u16) {
        0x0120
    }

    fn payload_from_bytes(byte_stream: &mut ByteStream) -> (result: Result<
        Self,
        ConversionError,
    >) {
        proof {
            reveal(<SkillUnitDisappearPacket as Packet>::payload_decoding);
        }
        let mut cursor = byte_stream.fork();
        let entity_id = EntityId::from_bytes(&mut cursor, None)?;
        byte_stream.follow(&cursor);
        Ok(SkillUnitDisappearPacket { entity_id })
    }

    fn payload_to_bytes(&self) -> (bytes: Vec<u8>) {
        proof {
            reveal(<SkillUnitDisappearPacket as Packet>::payload_encoding);
        }
        let bytes = self.entity_id.to_bytes(None);
        bytes
    }

    proof fn lemma_payload_round_trip(value: SkillUnitDisappearPacket, data: Seq<u8>, at: int) {
        reveal(<SkillUnitDisappearPacket as Packet>::payload_decoding);
        reveal(<SkillUnitDisappearPacket as Packet>::payload_encoding);
        let piece_0 = EntityId::encoding(value.entity_id, None);
        EntityId::lemma_round_trip(value.entity_id, None, data, at);
    }
}

} // verus!
