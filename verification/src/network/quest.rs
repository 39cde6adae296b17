//! The packets about quests.

use cgmath::Vector2;
use vstd::prelude::*;

use crate::loaders::convertable::{
    all_encodable, all_faithful, behind, count_whole, decode_repeated, decode_three, encode_fixed,
    encode_repeated, lemma_repeated_round_trip, lemma_repeated_size, lemma_whole_count, models,
    repeated_decoding, repeated_encoding, whole_count, ByteConvertable, FixedByteSize,
};
use crate::loaders::stream::{ByteStream, ConversionError};
use crate::loaders::wire::{lemma_holds_at_bounds, lemma_holds_at_split, lemma_holds_at_take};
use crate::network::ids::EntityId;
use crate::network::packet::{LengthPrefixed, Packet};

verus! {

#[derive(Clone, Debug)]
pub struct ObjectiveDetails1 {
    pub hunt_identification: u32,
    pub objective_type: u32,
    pub mob_id: u32,
    pub minimum_level: u16,
    pub maximum_level: u16,
    pub mob_count: u16,
    pub mob_name: String,
}

/// What a [`ObjectiveDetails1`] stands for.
pub struct ObjectiveDetails1Model {
    pub hunt_identification: u32,
    pub objective_type: u32,
    pub mob_id: u32,
    pub minimum_level: u16,
    pub maximum_level: u16,
    pub mob_count: u16,
    pub mob_name: Seq<char>,
}

impl ByteConvertable for ObjectiveDetails1 {
    type Model = ObjectiveDetails1Model;

    open spec fn model(&self) -> ObjectiveDetails1Model {
        ObjectiveDetails1Model {
            hunt_identification: self.hunt_identification.model(),
            objective_type: self.objective_type.model(),
            mob_id: self.mob_id.model(),
            minimum_level: self.minimum_level.model(),
            maximum_level: self.maximum_level.model(),
            mob_count: self.mob_count.model(),
            mob_name: self.mob_name.model(),
        }
    }

    open spec fn accepts(length_hint: Option<usize>) -> bool {
        length_hint is None
    }

    #[verifier::opaque]
    open spec fn decoding(data: Seq<u8>, at: int, length_hint: Option<usize>) -> Result<
        (ObjectiveDetails1Model, nat),
        ConversionError,
    > {
        let hunt_identification = u32::decoding(data, at, None);
        let at_objective_type = behind(at, hunt_identification);
        let objective_type = u32::decoding(data, at_objective_type, None);
        let at_mob_id = behind(at_objective_type, objective_type);
        let mob_id = u32::decoding(data, at_mob_id, None);
        let at_minimum_level = behind(at_mob_id, mob_id);
        let minimum_level = u16::decoding(data, at_minimum_level, None);
        let at_maximum_level = behind(at_minimum_level, minimum_level);
        let maximum_level = u16::decoding(data, at_maximum_level, None);
        let at_mob_count = behind(at_maximum_level, maximum_level);
        let mob_count = u16::decoding(data, at_mob_count, None);
        let at_mob_name = behind(at_mob_count, mob_count);
        let mob_name = String::decoding(data, at_mob_name, Some(24));
        let behind_all = behind(at_mob_name, mob_name);
        if hunt_identification is Err {
            Err(hunt_identification->Err_0)
        } else if objective_type is Err {
            Err(objective_type->Err_0)
        } else if mob_id is Err {
            Err(mob_id->Err_0)
        } else if minimum_level is Err {
            Err(minimum_level->Err_0)
        } else if maximum_level is Err {
            Err(maximum_level->Err_0)
        } else if mob_count is Err {
            Err(mob_count->Err_0)
        } else if mob_name is Err {
            Err(mob_name->Err_0)
        } else {
            Ok(
                (
                    ObjectiveDetails1Model {
                        hunt_identification: hunt_identification->Ok_0.0,
                        objective_type: objective_type->Ok_0.0,
                        mob_id: mob_id->Ok_0.0,
                        minimum_level: minimum_level->Ok_0.0,
                        maximum_level: maximum_level->Ok_0.0,
                        mob_count: mob_count->Ok_0.0,
                        mob_name: mob_name->Ok_0.0,
                    },
                    (behind_all - at) as nat,
                ),
            )
        }
    }

    open spec fn encodable(value: ObjectiveDetails1Model, length_hint: Option<usize>) -> bool {
        String::encodable(value.mob_name, Some(24))
    }

    open spec fn faithful(value: ObjectiveDetails1Model, length_hint: Option<usize>) -> bool {
        String::faithful(value.mob_name, Some(24))
    }

    #[verifier::opaque]
    open spec fn encoding(value: ObjectiveDetails1Model, length_hint: Option<usize>) -> Seq<u8> {
        u32::encoding(value.hunt_identification, None)
            + u32::encoding(value.objective_type, None)
            + u32::encoding(value.mob_id, None)
            + u16::encoding(value.minimum_level, None)
            + u16::encoding(value.maximum_level, None)
            + u16::encoding(value.mob_count, None)
            + String::encoding(value.mob_name, Some(24))
    }

    fn from_bytes(byte_stream: &mut ByteStream, length_hint: Option<usize>) -> (result: Result<
        Self,
        ConversionError,
    >) {
        proof {
            reveal(<ObjectiveDetails1 as ByteConvertable>::decoding);
        }
        let mut cursor = byte_stream.fork();
        let hunt_identification = u32::from_bytes(&mut cursor, None)?;
        let objective_type = u32::from_bytes(&mut cursor, None)?;
        let mob_id = u32::from_bytes(&mut cursor, None)?;
        let minimum_level = u16::from_bytes(&mut cursor, None)?;
        let maximum_level = u16::from_bytes(&mut cursor, None)?;
        let mob_count = u16::from_bytes(&mut cursor, None)?;
        let mob_name = String::from_bytes(&mut cursor, Some(24))?;
        byte_stream.follow(&cursor);
        Ok(ObjectiveDetails1 {
            hunt_identification,
            objective_type,
            mob_id,
            minimum_level,
            maximum_level,
            mob_count,
            mob_name,
        })
    }

    fn to_bytes(&self, length_hint: Option<usize>) -> (bytes: Vec<u8>) {
        proof {
            reveal(<ObjectiveDetails1 as ByteConvertable>::encoding);
        }
        let mut bytes = self.hunt_identification.to_bytes(None);
        let mut piece = self.objective_type.to_bytes(None);
        bytes.append(&mut piece);
        let mut piece = self.mob_id.to_bytes(None);
        bytes.append(&mut piece);
        let mut piece = self.minimum_level.to_bytes(None);
        bytes.append(&mut piece);
        let mut piece = self.maximum_level.to_bytes(None);
        bytes.append(&mut piece);
        let mut piece = self.mob_count.to_bytes(None);
        bytes.append(&mut piece);
        let mut piece = self.mob_name.to_bytes(Some(24));
        bytes.append(&mut piece);
        bytes
    }

    proof fn lemma_round_trip(
        value: ObjectiveDetails1Model,
        length_hint: Option<usize>,
        data: Seq<u8>,
        at: int,
    ) {
        reveal(<ObjectiveDetails1 as ByteConvertable>::decoding);
        reveal(<ObjectiveDetails1 as ByteConvertable>::encoding);
        let piece_0 = u32::encoding(value.hunt_identification, None);
        let piece_1 = u32::encoding(value.objective_type, None);
        let piece_2 = u32::encoding(value.mob_id, None);
        let piece_3 = u16::encoding(value.minimum_level, None);
        let piece_4 = u16::encoding(value.maximum_level, None);
        let piece_5 = u16::encoding(value.mob_count, None);
        let piece_6 = String::encoding(value.mob_name, Some(24));
        let front_1 = piece_0;
        let front_2 = front_1 + piece_1;
        let front_3 = front_2 + piece_2;
        let front_4 = front_3 + piece_3;
        let front_5 = front_4 + piece_4;
        let front_6 = front_5 + piece_5;
        lemma_holds_at_split(data, at, front_6, piece_6);
        lemma_holds_at_split(data, at, front_5, piece_5);
        lemma_holds_at_split(data, at, front_4, piece_4);
        lemma_holds_at_split(data, at, front_3, piece_3);
        lemma_holds_at_split(data, at, front_2, piece_2);
        lemma_holds_at_split(data, at, front_1, piece_1);
        u32::lemma_round_trip(value.hunt_identification, None, data, at);
        u32::lemma_round_trip(value.objective_type, None, data, at + front_1.len());
        u32::lemma_round_trip(value.mob_id, None, data, at + front_2.len());
        u16::lemma_round_trip(value.minimum_level, None, data, at + front_3.len());
        u16::lemma_round_trip(value.maximum_level, None, data, at + front_4.len());
        u16::lemma_round_trip(value.mob_count, None, data, at + front_5.len());
        String::lemma_round_trip(value.mob_name, Some(24), data, at + front_6.len());
    }
}

#[derive(Clone, Debug)]
pub struct QuestNotificationPacket1 {
    pub quest_id: u32,
    pub active: u8,
    pub start_time: u32,
    pub expire_time: u32,
    pub objective_count: u16,
    /// For some reason this packet always has space for three objective
    /// details, even if none are sent
    pub objective_details: [ObjectiveDetails1; 3],
}

/// What a [`QuestNotificationPacket1`] stands for.
pub struct QuestNotificationPacket1Model {
    pub quest_id: u32,
    pub active: u8,
    pub start_time: u32,
    pub expire_time: u32,
    pub objective_count: u16,
    pub objective_details: Seq<ObjectiveDetails1Model>,
}

impl Packet for QuestNotificationPacket1 {
    type Model = QuestNotificationPacket1Model;

    const PACKET_NAME: &'static str = "QuestNotificationPacket1";

    const IS_PING: bool = false;

    open spec fn model(&self) -> QuestNotificationPacket1Model {
        QuestNotificationPacket1Model {
            quest_id: self.quest_id.model(),
            active: self.active.model(),
            start_time: self.start_time.model(),
            expire_time: self.expire_time.model(),
            objective_count: self.objective_count.model(),
            objective_details: models(self.objective_details@),
        }
    }

    open spec fn packet_header() -> u16 {
        0x09f9
    }

    #[verifier::opaque]
    open spec fn payload_decoding(data: Seq<u8>, at: int) -> Result<
        (QuestNotificationPacket1Model, nat),
        ConversionError,
    > {
        let quest_id = u32::decoding(data, at, None);
        let at_active = behind(at, quest_id);
        let active = u8::decoding(data, at_active, None);
        let at_start_time = behind(at_active, active);
        let start_time = u32::decoding(data, at_start_time, None);
        let at_expire_time = behind(at_start_time, start_time);
        let expire_time = u32::decoding(data, at_expire_time, None);
        let at_objective_count = behind(at_expire_time, expire_time);
        let objective_count = u16::decoding(data, at_objective_count, None);
        let at_objective_details = behind(at_objective_count, objective_count);
        let objective_details = repeated_decoding::<ObjectiveDetails1>(
            data,
            at_objective_details,
            3,
        );
        let behind_all = behind(at_objective_details, objective_details);
        if quest_id is Err {
            Err(quest_id->Err_0)
        } else if active is Err {
            Err(active->Err_0)
        } else if start_time is Err {
            Err(start_time->Err_0)
        } else if expire_time is Err {
            Err(expire_time->Err_0)
        } else if objective_count is Err {
            Err(objective_count->Err_0)
        } else if objective_details is Err {
            Err(objective_details->Err_0)
        } else {
            Ok(
                (
                    QuestNotificationPacket1Model {
                        quest_id: quest_id->Ok_0.0,
                        active: active->Ok_0.0,
                        start_time: start_time->Ok_0.0,
                        expire_time: expire_time->Ok_0.0,
                        objective_count: objective_count->Ok_0.0,
                        objective_details: objective_details->Ok_0.0,
                    },
                    (behind_all - at) as nat,
                ),
            )
        }
    }

    open spec fn encodable(value: QuestNotificationPacket1Model) -> bool {
        &&& all_encodable::<ObjectiveDetails1>(value.objective_details)
        &&& value.objective_details.len() == 3
    }

    open spec fn faithful(value: QuestNotificationPacket1Model) -> bool {
        all_faithful::<ObjectiveDetails1>(value.objective_details)
    }

    #[verifier::opaque]
    open spec fn payload_encoding(value: QuestNotificationPacket1Model) -> Seq<u8> {
        u32::encoding(value.quest_id, None)
            + u8::encoding(value.active, None)
            + u32::encoding(value.start_time, None)
            + u32::encoding(value.expire_time, None)
            + u16::encoding(value.objective_count, None)
            + repeated_encoding::<ObjectiveDetails1>(value.objective_details)
    }

    fn header() -> (header: u16) {
        0x09f9
    }

    fn payload_from_bytes(byte_stream: &mut ByteStream) -> (result: Result<
        Self,
        ConversionError,
    >) {
        proof {
            reveal(<QuestNotificationPacket1 as Packet>::payload_decoding);
        }
        let mut cursor = byte_stream.fork();
        let quest_id = u32::from_bytes(&mut cursor, None)?;
        let active = u8::from_bytes(&mut cursor, None)?;
        let start_time = u32::from_bytes(&mut cursor, None)?;
        let expire_time = u32::from_bytes(&mut cursor, None)?;
        let objective_count = u16::from_bytes(&mut cursor, None)?;
        let objective_details = decode_three::<ObjectiveDetails1>(&mut cursor)?;
        byte_stream.follow(&cursor);
        Ok(QuestNotificationPacket1 {
            quest_id,
            active,
            start_time,
            expire_time,
            objective_count,
            objective_details,
        })
    }

    fn payload_to_bytes(&self) -> (bytes: Vec<u8>) {
        proof {
            reveal(<QuestNotificationPacket1 as Packet>::payload_encoding);
        }
        let mut bytes = self.quest_id.to_bytes(None);
        let mut piece = self.active.to_bytes(None);
        bytes.append(&mut piece);
        let mut piece = self.start_time.to_bytes(None);
        bytes.append(&mut piece);
        let mut piece = self.expire_time.to_bytes(None);
        bytes.append(&mut piece);
        let mut piece = self.objective_count.to_bytes(None);
        bytes.append(&mut piece);
        let mut piece = encode_fixed::<ObjectiveDetails1, 3>(&self.objective_details);
        bytes.append(&mut piece);
        bytes
    }

    proof fn lemma_payload_round_trip(
        value: QuestNotificationPacket1Model,
        data: Seq<u8>,
        at: int,
    ) {
        reveal(<QuestNotificationPacket1 as Packet>::payload_decoding);
        reveal(<QuestNotificationPacket1 as Packet>::payload_encoding);
        let piece_0 = u32::encoding(value.quest_id, None);
        let piece_1 = u8::encoding(value.active, None);
        let piece_2 = u32::encoding(value.start_time, None);
        let piece_3 = u32::encoding(value.expire_time, None);
        let piece_4 = u16::encoding(value.objective_count, None);
        let piece_5 = repeated_encoding::<ObjectiveDetails1>(value.objective_details);
        let front_1 = piece_0;
        let front_2 = front_1 + piece_1;
        let front_3 = front_2 + piece_2;
        let front_4 = front_3 + piece_3;
        let front_5 = front_4 + piece_4;
        lemma_holds_at_split(data, at, front_5, piece_5);
        lemma_holds_at_split(data, at, front_4, piece_4);
        lemma_holds_at_split(data, at, front_3, piece_3);
        lemma_holds_at_split(data, at, front_2, piece_2);
        lemma_holds_at_split(data, at, front_1, piece_1);
        u32::lemma_round_trip(value.quest_id, None, data, at);
        u8::lemma_round_trip(value.active, None, data, at + front_1.len());
        u32::lemma_round_trip(value.start_time, None, data, at + front_2.len());
        u32::lemma_round_trip(value.expire_time, None, data, at + front_3.len());
        u16::lemma_round_trip(value.objective_count, None, data, at + front_4.len());
        lemma_repeated_round_trip::<ObjectiveDetails1>(
            value.objective_details,
            data,
            at + front_5.len(),
        );
    }
}

#[derive(Clone, Copy, Debug)]
pub struct HuntingObjective {
    pub quest_id: u32,
    pub mob_id: u32,
    pub total_count: u16,
    pub current_count: u16,
}

impl ByteConvertable for HuntingObjective {
    type Model = HuntingObjective;

    open spec fn model(&self) -> HuntingObjective {
        *self
    }

    open spec fn accepts(length_hint: Option<usize>) -> bool {
        length_hint is None
    }

    #[verifier::opaque]
    open spec fn decoding(data: Seq<u8>, at: int, length_hint: Option<usize>) -> Result<
        (HuntingObjective, nat),
        ConversionError,
    > {
        let quest_id = u32::decoding(data, at, None);
        let at_mob_id = behind(at, quest_id);
        let mob_id = u32::decoding(data, at_mob_id, None);
        let at_total_count = behind(at_mob_id, mob_id);
        let total_count = u16::decoding(data, at_total_count, None);
        let at_current_count = behind(at_total_count, total_count);
        let current_count = u16::decoding(data, at_current_count, None);
        let behind_all = behind(at_current_count, current_count);
        if quest_id is Err {
            Err(quest_id->Err_0)
        } else if mob_id is Err {
            Err(mob_id->Err_0)
        } else if total_count is Err {
            Err(total_count->Err_0)
        } else if current_count is Err {
            Err(current_count->Err_0)
        } else {
            Ok(
                (
                    HuntingObjective {
                        quest_id: quest_id->Ok_0.0,
                        mob_id: mob_id->Ok_0.0,
                        total_count: total_count->Ok_0.0,
                        current_count: current_count->Ok_0.0,
                    },
                    (behind_all - at) as nat,
                ),
            )
        }
    }

    open spec fn encodable(value: HuntingObjective, length_hint: Option<usize>) -> bool {
        true
    }

    #[verifier::opaque]
    open spec fn encoding(value: HuntingObjective, length_hint: Option<usize>) -> Seq<u8> {
        u32::encoding(value.quest_id, None)
            + u32::encoding(value.mob_id, None)
            + u16::encoding(value.total_count, None)
            + u16::encoding(value.current_count, None)
    }

    fn from_bytes(byte_stream: &mut ByteStream, length_hint: Option<usize>) -> (result: Result<
        Self,
        ConversionError,
    >) {
        proof {
            reveal(<HuntingObjective as ByteConvertable>::decoding);
        }
        let mut cursor = byte_stream.fork();
        let quest_id = u32::from_bytes(&mut cursor, None)?;
        let mob_id = u32::from_bytes(&mut cursor, None)?;
        let total_count = u16::from_bytes(&mut cursor, None)?;
        let current_count = u16::from_bytes(&mut cursor, None)?;
        byte_stream.follow(&cursor);
        Ok(HuntingObjective { quest_id, mob_id, total_count, current_count })
    }

    fn to_bytes(&self, length_hint: Option<usize>) -> (bytes: Vec<u8>) {
        proof {
            reveal(<HuntingObjective as ByteConvertable>::encoding);
        }
        let mut bytes = self.quest_id.to_bytes(None);
        let mut piece = self.mob_id.to_bytes(None);
        bytes.append(&mut piece);
        let mut piece = self.total_count.to_bytes(None);
        bytes.append(&mut piece);
        let mut piece = self.current_count.to_bytes(None);
        bytes.append(&mut piece);
        bytes
    }

    proof fn lemma_round_trip(
        value: HuntingObjective,
        length_hint: Option<usize>,
        data: Seq<u8>,
        at: int,
    ) {
        reveal(<HuntingObjective as ByteConvertable>::decoding);
        reveal(<HuntingObjective as ByteConvertable>::encoding);
        let piece_0 = u32::encoding(value.quest_id, None);
        let piece_1 = u32::encoding(value.mob_id, None);
        let piece_2 = u16::encoding(value.total_count, None);
        let piece_3 = u16::encoding(value.current_count, None);
        let front_1 = piece_0;
        let front_2 = front_1 + piece_1;
        let front_3 = front_2 + piece_2;
        lemma_holds_at_split(data, at, front_3, piece_3);
        lemma_holds_at_split(data, at, front_2, piece_2);
        lemma_holds_at_split(data, at, front_1, piece_1);
        u32::lemma_round_trip(value.quest_id, None, data, at);
        u32::lemma_round_trip(value.mob_id, None, data, at + front_1.len());
        u16::lemma_round_trip(value.total_count, None, data, at + front_2.len());
        u16::lemma_round_trip(value.current_count, None, data, at + front_3.len());
    }
}

impl FixedByteSize for HuntingObjective {
    open spec fn size() -> nat {
        12
    }

    fn size_in_bytes() -> (size: usize) {
        12
    }

    proof fn lemma_fixed_size(data: Seq<u8>, at: int, value: HuntingObjective) {
        reveal(<HuntingObjective as ByteConvertable>::decoding);
        reveal(<HuntingObjective as ByteConvertable>::encoding);
        assert(Self::size() == 12);
        u32::lemma_fixed_size(data, at, value.quest_id);
        u32::lemma_fixed_size(data, at + 4, value.mob_id);
        u16::lemma_fixed_size(data, at + 8, value.total_count);
        u16::lemma_fixed_size(data, at + 10, value.current_count);
    }
}

#[derive(Clone, Debug)]
pub struct HuntingQuestNotificationPacket {
    pub packet_length: u16,
    pub objective_details: Vec<HuntingObjective>,
}

/// What a [`HuntingQuestNotificationPacket`] stands for.
pub struct HuntingQuestNotificationPacketModel {
    pub packet_length: u16,
    pub objective_details: Seq<HuntingObjective>,
}

impl Packet for HuntingQuestNotificationPacket {
    type Model = HuntingQuestNotificationPacketModel;

    const PACKET_NAME: &'static str = "HuntingQuestNotificationPacket";

    const IS_PING: bool = false;

    open spec fn model(&self) -> HuntingQuestNotificationPacketModel {
        HuntingQuestNotificationPacketModel {
            packet_length: self.packet_length.model(),
            objective_details: models(self.objective_details@),
        }
    }

    open spec fn packet_header() -> u16 {
        0x08fe
    }

    #[verifier::opaque]
    open spec fn payload_decoding(data: Seq<u8>, at: int) -> Result<
        (HuntingQuestNotificationPacketModel, nat),
        ConversionError,
    > {
        let packet_length = u16::decoding(data, at, None);
        let end = at - 2 + packet_length->Ok_0.0;
        let frame = data.take(end);
        let at_objective_details = behind(at, packet_length);
        let objective_details = repeated_decoding::<HuntingObjective>(
            frame,
            at_objective_details,
            whole_count::<HuntingObjective>(packet_length->Ok_0.0 - 4)->Some_0,
        );
        let behind_all = behind(at_objective_details, objective_details);
        if packet_length is Err {
            Err(packet_length->Err_0)
        } else if packet_length->Ok_0.0 < 4 {
            Err(ConversionError::Invalid)
        } else if end > data.len() {
            Err(ConversionError::Incomplete)
        } else if whole_count::<HuntingObjective>(packet_length->Ok_0.0 - 4) is None
            || objective_details is Err
            || behind_all != end {
            Err(ConversionError::Invalid)
        } else {
            Ok(
                (
                    HuntingQuestNotificationPacketModel {
                        packet_length: packet_length->Ok_0.0,
                        objective_details: objective_details->Ok_0.0,
                    },
                    (behind_all - at) as nat,
                ),
            )
        }
    }

    open spec fn encodable(value: HuntingQuestNotificationPacketModel) -> bool {
        &&& all_encodable::<HuntingObjective>(value.objective_details)
        &&& value.packet_length == 2 + Self::payload_encoding(value).len()
    }

    #[verifier::opaque]
    open spec fn payload_encoding(value: HuntingQuestNotificationPacketModel) -> Seq<u8> {
        u16::encoding(value.packet_length, None)
            + repeated_encoding::<HuntingObjective>(value.objective_details)
    }

    fn header() -> (header: u16) {
        0x08fe
    }

    fn payload_from_bytes(byte_stream: &mut ByteStream) -> (result: Result<
        Self,
        ConversionError,
    >) {
        proof {
            reveal(<HuntingQuestNotificationPacket as Packet>::payload_decoding);
        }
        let mut cursor = byte_stream.fork();
        let packet_length = u16::from_bytes(&mut cursor, None)?;
        if packet_length < 4 {
            return Err(ConversionError::Invalid);
        }
        if cursor.remaining_length() < (packet_length - 4) as usize {
            return Err(ConversionError::Incomplete);
        }
        let end = cursor.get_offset() + (packet_length - 4) as usize;
        let mut frame = cursor.frame(end);
        let count = match count_whole::<HuntingObjective>((packet_length - 4) as usize) {
            Some(count) => count,
            None => return Err(ConversionError::Invalid),
        };
        let objective_details = match decode_repeated::<HuntingObjective>(&mut frame, count) {
            Ok(value) => value,
            Err(_) => return Err(ConversionError::Invalid),
        };
        if !frame.is_empty() {
            return Err(ConversionError::Invalid);
        }
        byte_stream.follow(&frame);
        Ok(HuntingQuestNotificationPacket { packet_length, objective_details })
    }

    fn payload_to_bytes(&self) -> (bytes: Vec<u8>) {
        proof {
            reveal(<HuntingQuestNotificationPacket as Packet>::payload_encoding);
        }
        let mut bytes = self.packet_length.to_bytes(None);
        let mut piece = encode_repeated::<HuntingObjective>(&self.objective_details);
        bytes.append(&mut piece);
        bytes
    }

    proof fn lemma_payload_round_trip(
        value: HuntingQuestNotificationPacketModel,
        data: Seq<u8>,
        at: int,
    ) {
        reveal(<HuntingQuestNotificationPacket as Packet>::payload_decoding);
        reveal(<HuntingQuestNotificationPacket as Packet>::payload_encoding);
        let piece_0 = u16::encoding(value.packet_length, None);
        let piece_1 = repeated_encoding::<HuntingObjective>(value.objective_details);
        let front_1 = piece_0;
        lemma_holds_at_split(data, at, front_1, piece_1);
        lemma_holds_at_bounds(data, at, Self::payload_encoding(value));
        let end = at - 2 + value.packet_length;
        let frame = data.take(end);
        u16::lemma_round_trip(value.packet_length, None, data, at);
        lemma_holds_at_take(data, end, at + front_1.len(), piece_1);
        lemma_repeated_size::<HuntingObjective>(frame, at + front_1.len(), value.objective_details);
        assert(HuntingObjective::size() == 12);
        lemma_whole_count::<HuntingObjective>(value.objective_details.len());
        lemma_repeated_round_trip::<HuntingObjective>(
            value.objective_details,
            frame,
            at + front_1.len(),
        );
    }
}

impl LengthPrefixed for HuntingQuestNotificationPacket {
    open spec fn announced_length(value: HuntingQuestNotificationPacketModel) -> u16 {
        value.packet_length
    }

    proof fn lemma_exact_length(data: Seq<u8>, at: int) {
        reveal(<HuntingQuestNotificationPacket as Packet>::payload_decoding);
    }
}

#[derive(Clone, Debug)]
pub struct HuntingQuestUpdateObjectivePacket {
    pub packet_length: u16,
    pub objective_count: u16,
    pub objective_details: Vec<HuntingObjective>,
}

/// What a [`HuntingQuestUpdateObjectivePacket`] stands for.
pub struct HuntingQuestUpdateObjectivePacketModel {
    pub packet_length: u16,
    pub objective_count: u16,
    pub objective_details: Seq<HuntingObjective>,
}

impl Packet for HuntingQuestUpdateObjectivePacket {
    type Model = HuntingQuestUpdateObjectivePacketModel;

    const PACKET_NAME: &'static str = "HuntingQuestUpdateObjectivePacket";

    const IS_PING: bool = false;

    open spec fn model(&self) -> HuntingQuestUpdateObjectivePacketModel {
        HuntingQuestUpdateObjectivePacketModel {
            packet_length: self.packet_length.model(),
            objective_count: self.objective_count.model(),
            objective_details: models(self.objective_details@),
        }
    }

    open spec fn packet_header() -> u16 {
        0x09fa
    }

    #[verifier::opaque]
    open spec fn payload_decoding(data: Seq<u8>, at: int) -> Result<
        (HuntingQuestUpdateObjectivePacketModel, nat),
        ConversionError,
    > {
        let packet_length = u16::decoding(data, at, None);
        let end = at - 2 + packet_length->Ok_0.0;
        let frame = data.take(end);
        let at_objective_count = behind(at, packet_length);
        let objective_count = u16::decoding(frame, at_objective_count, None);
        let at_objective_details = behind(at_objective_count, objective_count);
        let objective_details = repeated_decoding::<HuntingObjective>(
            frame,
            at_objective_details,
            whole_count::<HuntingObjective>(packet_length->Ok_0.0 - 6)->Some_0,
        );
        let behind_all = behind(at_objective_details, objective_details);
        if packet_length is Err {
            Err(packet_length->Err_0)
        } else if packet_length->Ok_0.0 < 6 {
            Err(ConversionError::Invalid)
        } else if end > data.len() {
            Err(ConversionError::Incomplete)
        } else if whole_count::<HuntingObjective>(packet_length->Ok_0.0 - 6) is None
            || objective_count is Err
            || objective_details is Err
            || behind_all != end {
            Err(ConversionError::Invalid)
        } else {
            Ok(
                (
                    HuntingQuestUpdateObjectivePacketModel {
                        packet_length: packet_length->Ok_0.0,
                        objective_count: objective_count->Ok_0.0,
                        objective_details: objective_details->Ok_0.0,
                    },
                    (behind_all - at) as nat,
                ),
            )
        }
    }

    open spec fn encodable(value: HuntingQuestUpdateObjectivePacketModel) -> bool {
        &&& all_encodable::<HuntingObjective>(value.objective_details)
        &&& value.packet_length == 2 + Self::payload_encoding(value).len()
    }

    #[verifier::opaque]
    open spec fn payload_encoding(value: HuntingQuestUpdateObjectivePacketModel) -> Seq<u8> {
        u16::encoding(value.packet_length, None)
            + u16::encoding(value.objective_count, None)
            + repeated_encoding::<HuntingObjective>(value.objective_details)
    }

    fn header() -> (header: u16) {
        0x09fa
    }

    fn payload_from_bytes(byte_stream: &mut ByteStream) -> (result: Result<
        Self,
        ConversionError,
    >) {
        proof {
            reveal(<HuntingQuestUpdateObjectivePacket as Packet>::payload_decoding);
        }
        let mut cursor = byte_stream.fork();
        let packet_length = u16::from_bytes(&mut cursor, None)?;
        if packet_length < 6 {
            return Err(ConversionError::Invalid);
        }
        if cursor.remaining_length() < (packet_length - 4) as usize {
            return Err(ConversionError::Incomplete);
        }
        let end = cursor.get_offset() + (packet_length - 4) as usize;
        let mut frame = cursor.frame(end);
        let objective_count = match u16::from_bytes(&mut frame, None) {
            Ok(value) => value,
            Err(_) => return Err(ConversionError::Invalid),
        };
        let count = match count_whole::<HuntingObjective>((packet_length - 6) as usize) {
            Some(count) => count,
            None => return Err(ConversionError::Invalid),
        };
        let objective_details = match decode_repeated::<HuntingObjective>(&mut frame, count) {
            Ok(value) => value,
            Err(_) => return Err(ConversionError::Invalid),
        };
        if !frame.is_empty() {
            return Err(ConversionError::Invalid);
        }
        byte_stream.follow(&frame);
        Ok(HuntingQuestUpdateObjectivePacket {
            packet_length,
            objective_count,
            objective_details,
        })
    }

    fn payload_to_bytes(&self) -> (bytes: Vec<u8>) {
        proof {
            reveal(<HuntingQuestUpdateObjectivePacket as Packet>::payload_encoding);
        }
        let mut bytes = self.packet_length.to_bytes(None);
        let mut piece = self.objective_count.to_bytes(None);
        bytes.append(&mut piece);
        let mut piece = encode_repeated::<HuntingObjective>(&self.objective_details);
        bytes.append(&mut piece);
        bytes
    }

    proof fn lemma_payload_round_trip(
        value: HuntingQuestUpdateObjectivePacketModel,
        data: Seq<u8>,
        at: int,
    ) {
        reveal(<HuntingQuestUpdateObjectivePacket as Packet>::payload_decoding);
        reveal(<HuntingQuestUpdateObjectivePacket as Packet>::payload_encoding);
        let piece_0 = u16::encoding(value.packet_length, None);
        let piece_1 = u16::encoding(value.objective_count, None);
        let piece_2 = repeated_encoding::<HuntingObjective>(value.objective_details);
        let front_1 = piece_0;
        let front_2 = front_1 + piece_1;
        lemma_holds_at_split(data, at, front_2, piece_2);
        lemma_holds_at_split(data, at, front_1, piece_1);
        lemma_holds_at_bounds(data, at, Self::payload_encoding(value));
        let end = at - 2 + value.packet_length;
        let frame = data.take(end);
        u16::lemma_round_trip(value.packet_length, None, data, at);
        lemma_holds_at_take(data, end, at + front_1.len(), piece_1);
        u16::lemma_round_trip(value.objective_count, None, frame, at + front_1.len());
        lemma_holds_at_take(data, end, at + front_2.len(), piece_2);
        lemma_repeated_size::<HuntingObjective>(frame, at + front_2.len(), value.objective_details);
        assert(HuntingObjective::size() == 12);
        lemma_whole_count::<HuntingObjective>(value.objective_details.len());
        lemma_repeated_round_trip::<HuntingObjective>(
            value.objective_details,
            frame,
            at + front_2.len(),
        );
    }
}

impl LengthPrefixed for HuntingQuestUpdateObjectivePacket {
    open spec fn announced_length(value: HuntingQuestUpdateObjectivePacketModel) -> u16 {
        value.packet_length
    }

    proof fn lemma_exact_length(data: Seq<u8>, at: int) {
        reveal(<HuntingQuestUpdateObjectivePacket as Packet>::payload_decoding);
    }
}

#[derive(Clone, Copy, Debug)]
pub struct QuestRemovedPacket {
    pub quest_id: u32,
}

impl Packet for QuestRemovedPacket {
    type Model = QuestRemovedPacket;

    const PACKET_NAME: &'static str = "QuestRemovedPacket";

    const IS_PING: bool = false;

    open spec fn model(&self) -> QuestRemovedPacket {
        *self
    }

    open spec fn packet_header() -> u16 {
        0x02b4
    }

    #[verifier::opaque]
    open spec fn payload_decoding(data: Seq<u8>, at: int) -> Result<
        (QuestRemovedPacket, nat),
        ConversionError,
    > {
        let quest_id = u32::decoding(data, at, None);
        let behind_all = behind(at, quest_id);
        if quest_id is Err {
            Err(quest_id->Err_0)
        } else {
            Ok(
                (
                    QuestRemovedPacket {
                        quest_id: quest_id->Ok_0.0,
                    },
                    (behind_all - at) as nat,
                ),
            )
        }
    }

    open spec fn encodable(value: QuestRemovedPacket) -> bool {
        true
    }

    #[verifier::opaque]
    open spec fn payload_encoding(value: QuestRemovedPacket) -> Seq<u8> {
        u32::encoding(value.quest_id, None)
    }

    fn header() -> (header: u16) {
        0x02b4
    }

    fn payload_from_bytes(byte_stream: &mut ByteStream) -> (result: Result<
        Self,
        ConversionError,
    >) {
        proof {
            reveal(<QuestRemovedPacket as Packet>::payload_decoding);
        }
        let mut cursor = byte_stream.fork();
        let quest_id = u32::from_bytes(&mut cursor, None)?;
        byte_stream.follow(&cursor);
        Ok(QuestRemovedPacket { quest_id })
    }

    fn payload_to_bytes(&self) -> (bytes: Vec<u8>) {
        proof {
            reveal(<QuestRemovedPacket as Packet>::payload_encoding);
        }
        let bytes = self.quest_id.to_bytes(None);
        bytes
    }

    proof fn lemma_payload_round_trip(value: QuestRemovedPacket, data: Seq<u8>, at: int) {
        reveal(<QuestRemovedPacket as Packet>::payload_decoding);
        reveal(<QuestRemovedPacket as Packet>::payload_encoding);
        let piece_0 = u32::encoding(value.quest_id, None);
        u32::lemma_round_trip(value.quest_id, None, data, at);
    }
}

#[derive(Clone, Debug)]
pub struct QuestDetails {
    pub hunt_identification: u32,
    pub objective_type: u32,
    pub mob_id: u32,
    pub minimum_level: u16,
    pub maximum_level: u16,
    pub kill_count: u16,
    pub total_count: u16,
    pub mob_name: String,
}

/// What a [`QuestDetails`] stands for.
pub struct QuestDetailsModel {
    pub hunt_identification: u32,
    pub objective_type: u32,
    pub mob_id: u32,
    pub minimum_level: u16,
    pub maximum_level: u16,
    pub kill_count: u16,
    pub total_count: u16,
    pub mob_name: Seq<char>,
}

impl ByteConvertable for QuestDetails {
    type Model = QuestDetailsModel;

    open spec fn model(&self) -> QuestDetailsModel {
        QuestDetailsModel {
            hunt_identification: self.hunt_identification.model(),
            objective_type: self.objective_type.model(),
            mob_id: self.mob_id.model(),
            minimum_level: self.minimum_level.model(),
            maximum_level: self.maximum_level.model(),
            kill_count: self.kill_count.model(),
            total_count: self.total_count.model(),
            mob_name: self.mob_name.model(),
        }
    }

    open spec fn accepts(length_hint: Option<usize>) -> bool {
        length_hint is None
    }

    #[verifier::opaque]
    open spec fn decoding(data: Seq<u8>, at: int, length_hint: Option<usize>) -> Result<
        (QuestDetailsModel, nat),
        ConversionError,
    > {
        let hunt_identification = u32::decoding(data, at, None);
        let at_objective_type = behind(at, hunt_identification);
        let objective_type = u32::decoding(data, at_objective_type, None);
        let at_mob_id = behind(at_objective_type, objective_type);
        let mob_id = u32::decoding(data, at_mob_id, None);
        let at_minimum_level = behind(at_mob_id, mob_id);
        let minimum_level = u16::decoding(data, at_minimum_level, None);
        let at_maximum_level = behind(at_minimum_level, minimum_level);
        let maximum_level = u16::decoding(data, at_maximum_level, None);
        let at_kill_count = behind(at_maximum_level, maximum_level);
        let kill_count = u16::decoding(data, at_kill_count, None);
        let at_total_count = behind(at_kill_count, kill_count);
        let total_count = u16::decoding(data, at_total_count, None);
        let at_mob_name = behind(at_total_count, total_count);
        let mob_name = String::decoding(data, at_mob_name, Some(24));
        let behind_all = behind(at_mob_name, mob_name);
        if hunt_identification is Err {
            Err(hunt_identification->Err_0)
        } else if objective_type is Err {
            Err(objective_type->Err_0)
        } else if mob_id is Err {
            Err(mob_id->Err_0)
        } else if minimum_level is Err {
            Err(minimum_level->Err_0)
        } else if maximum_level is Err {
            Err(maximum_level->Err_0)
        } else if kill_count is Err {
            Err(kill_count->Err_0)
        } else if total_count is Err {
            Err(total_count->Err_0)
        } else if mob_name is Err {
            Err(mob_name->Err_0)
        } else {
            Ok(
                (
                    QuestDetailsModel {
                        hunt_identification: hunt_identification->Ok_0.0,
                        objective_type: objective_type->Ok_0.0,
                        mob_id: mob_id->Ok_0.0,
                        minimum_level: minimum_level->Ok_0.0,
                        maximum_level: maximum_level->Ok_0.0,
                        kill_count: kill_count->Ok_0.0,
                        total_count: total_count->Ok_0.0,
                        mob_name: mob_name->Ok_0.0,
                    },
                    (behind_all - at) as nat,
                ),
            )
        }
    }

    open spec fn encodable(value: QuestDetailsModel, length_hint: Option<usize>) -> bool {
        String::encodable(value.mob_name, Some(24))
    }

    open spec fn faithful(value: QuestDetailsModel, length_hint: Option<usize>) -> bool {
        String::faithful(value.mob_name, Some(24))
    }

    #[verifier::opaque]
    open spec fn encoding(value: QuestDetailsModel, length_hint: Option<usize>) -> Seq<u8> {
        u32::encoding(value.hunt_identification, None)
            + u32::encoding(value.objective_type, None)
            + u32::encoding(value.mob_id, None)
            + u16::encoding(value.minimum_level, None)
            + u16::encoding(value.maximum_level, None)
            + u16::encoding(value.kill_count, None)
            + u16::encoding(value.total_count, None)
            + String::encoding(value.mob_name, Some(24))
    }

    fn from_bytes(byte_stream: &mut ByteStream, length_hint: Option<usize>) -> (result: Result<
        Self,
        ConversionError,
    >) {
        proof {
            reveal(<QuestDetails as ByteConvertable>::decoding);
        }
        let mut cursor = byte_stream.fork();
        let hunt_identification = u32::from_bytes(&mut cursor, None)?;
        let objective_type = u32::from_bytes(&mut cursor, None)?;
        let mob_id = u32::from_bytes(&mut cursor, None)?;
        let minimum_level = u16::from_bytes(&mut cursor, None)?;
        let maximum_level = u16::from_bytes(&mut cursor, None)?;
        let kill_count = u16::from_bytes(&mut cursor, None)?;
        let total_count = u16::from_bytes(&mut cursor, None)?;
        let mob_name = String::from_bytes(&mut cursor, Some(24))?;
        byte_stream.follow(&cursor);
        Ok(QuestDetails {
            hunt_identification,
            objective_type,
            mob_id,
            minimum_level,
            maximum_level,
            kill_count,
            total_count,
            mob_name,
        })
    }

    fn to_bytes(&self, length_hint: Option<usize>) -> (bytes: Vec<u8>) {
        proof {
            reveal(<QuestDetails as ByteConvertable>::encoding);
        }
        let mut bytes = self.hunt_identification.to_bytes(None);
        let mut piece = self.objective_type.to_bytes(None);
        bytes.append(&mut piece);
        let mut piece = self.mob_id.to_bytes(None);
        bytes.append(&mut piece);
        let mut piece = self.minimum_level.to_bytes(None);
        bytes.append(&mut piece);
        let mut piece = self.maximum_level.to_bytes(None);
        bytes.append(&mut piece);
        let mut piece = self.kill_count.to_bytes(None);
        bytes.append(&mut piece);
        let mut piece = self.total_count.to_bytes(None);
        bytes.append(&mut piece);
        let mut piece = self.mob_name.to_bytes(Some(24));
        bytes.append(&mut piece);
        bytes
    }

    proof fn lemma_round_trip(
        value: QuestDetailsModel,
        length_hint: Option<usize>,
        data: Seq<u8>,
        at: int,
    ) {
        reveal(<QuestDetails as ByteConvertable>::decoding);
        reveal(<QuestDetails as ByteConvertable>::encoding);
        let piece_0 = u32::encoding(value.hunt_identification, None);
        let piece_1 = u32::encoding(value.objective_type, None);
        let piece_2 = u32::encoding(value.mob_id, None);
        let piece_3 = u16::encoding(value.minimum_level, None);
        let piece_4 = u16::encoding(value.maximum_level, None);
        let piece_5 = u16::encoding(value.kill_count, None);
        let piece_6 = u16::encoding(value.total_count, None);
        let piece_7 = String::encoding(value.mob_name, Some(24));
        let front_1 = piece_0;
        let front_2 = front_1 + piece_1;
        let front_3 = front_2 + piece_2;
        let front_4 = front_3 + piece_3;
        let front_5 = front_4 + piece_4;
        let front_6 = front_5 + piece_5;
        let front_7 = front_6 + piece_6;
        lemma_holds_at_split(data, at, front_7, piece_7);
        lemma_holds_at_split(data, at, front_6, piece_6);
        lemma_holds_at_split(data, at, front_5, piece_5);
        lemma_holds_at_split(data, at, front_4, piece_4);
        lemma_holds_at_split(data, at, front_3, piece_3);
        lemma_holds_at_split(data, at, front_2, piece_2);
        lemma_holds_at_split(data, at, front_1, piece_1);
        u32::lemma_round_trip(value.hunt_identification, None, data, at);
        u32::lemma_round_trip(value.objective_type, None, data, at + front_1.len());
        u32::lemma_round_trip(value.mob_id, None, data, at + front_2.len());
        u16::lemma_round_trip(value.minimum_level, None, data, at + front_3.len());
        u16::lemma_round_trip(value.maximum_level, None, data, at + front_4.len());
        u16::lemma_round_trip(value.kill_count, None, data, at + front_5.len());
        u16::lemma_round_trip(value.total_count, None, data, at + front_6.len());
        String::lemma_round_trip(value.mob_name, Some(24), data, at + front_7.len());
    }
}

#[derive(Clone, Debug)]
pub struct Quest {
    pub quest_id: u32,
    pub active: u8,
    pub remaining_time: u32,
    pub expire_time: u32,
    pub objective_count: u16,
    pub objective_details: Vec<QuestDetails>,
}

/// What a [`Quest`] stands for.
pub struct QuestModel {
    pub quest_id: u32,
    pub active: u8,
    pub remaining_time: u32,
    pub expire_time: u32,
    pub objective_count: u16,
    pub objective_details: Seq<QuestDetailsModel>,
}

impl ByteConvertable for Quest {
    type Model = QuestModel;

    open spec fn model(&self) -> QuestModel {
        QuestModel {
            quest_id: self.quest_id.model(),
            active: self.active.model(),
            remaining_time: self.remaining_time.model(),
            expire_time: self.expire_time.model(),
            objective_count: self.objective_count.model(),
            objective_details: models(self.objective_details@),
        }
    }

    open spec fn accepts(length_hint: Option<usize>) -> bool {
        length_hint is None
    }

    #[verifier::opaque]
    open spec fn decoding(data: Seq<u8>, at: int, length_hint: Option<usize>) -> Result<
        (QuestModel, nat),
        ConversionError,
    > {
        let quest_id = u32::decoding(data, at, None);
        let at_active = behind(at, quest_id);
        let active = u8::decoding(data, at_active, None);
        let at_remaining_time = behind(at_active, active);
        let remaining_time = u32::decoding(data, at_remaining_time, None);
        let at_expire_time = behind(at_remaining_time, remaining_time);
        let expire_time = u32::decoding(data, at_expire_time, None);
        let at_objective_count = behind(at_expire_time, expire_time);
        let objective_count = u16::decoding(data, at_objective_count, None);
        let at_objective_details = behind(at_objective_count, objective_count);
        let objective_details = repeated_decoding::<QuestDetails>(
            data,
            at_objective_details,
            objective_count->Ok_0.0 as nat,
        );
        let behind_all = behind(at_objective_details, objective_details);
        if quest_id is Err {
            Err(quest_id->Err_0)
        } else if active is Err {
            Err(active->Err_0)
        } else if remaining_time is Err {
            Err(remaining_time->Err_0)
        } else if expire_time is Err {
            Err(expire_time->Err_0)
        } else if objective_count is Err {
            Err(objective_count->Err_0)
        } else if objective_details is Err {
            Err(objective_details->Err_0)
        } else {
            Ok(
                (
                    QuestModel {
                        quest_id: quest_id->Ok_0.0,
                        active: active->Ok_0.0,
                        remaining_time: remaining_time->Ok_0.0,
                        expire_time: expire_time->Ok_0.0,
                        objective_count: objective_count->Ok_0.0,
                        objective_details: objective_details->Ok_0.0,
                    },
                    (behind_all - at) as nat,
                ),
            )
        }
    }

    open spec fn encodable(value: QuestModel, length_hint: Option<usize>) -> bool {
        &&& all_encodable::<QuestDetails>(value.objective_details)
        &&& value.objective_details.len() == value.objective_count
    }

    open spec fn faithful(value: QuestModel, length_hint: Option<usize>) -> bool {
        all_faithful::<QuestDetails>(value.objective_details)
    }

    #[verifier::opaque]
    open spec fn encoding(value: QuestModel, length_hint: Option<usize>) -> Seq<u8> {
        u32::encoding(value.quest_id, None)
            + u8::encoding(value.active, None)
            + u32::encoding(value.remaining_time, None)
            + u32::encoding(value.expire_time, None)
            + u16::encoding(value.objective_count, None)
            + repeated_encoding::<QuestDetails>(value.objective_details)
    }

    fn from_bytes(byte_stream: &mut ByteStream, length_hint: Option<usize>) -> (result: Result<
        Self,
        ConversionError,
    >) {
        proof {
            reveal(<Quest as ByteConvertable>::decoding);
        }
        let mut cursor = byte_stream.fork();
        let quest_id = u32::from_bytes(&mut cursor, None)?;
        let active = u8::from_bytes(&mut cursor, None)?;
        let remaining_time = u32::from_bytes(&mut cursor, None)?;
        let expire_time = u32::from_bytes(&mut cursor, None)?;
        let objective_count = u16::from_bytes(&mut cursor, None)?;
        let objective_details = decode_repeated::<QuestDetails>(
            &mut cursor,
            objective_count as usize,
        )?;
        byte_stream.follow(&cursor);
        Ok(Quest {
            quest_id,
            active,
            remaining_time,
            expire_time,
            objective_count,
            objective_details,
        })
    }

    fn to_bytes(&self, length_hint: Option<usize>) -> (bytes: Vec<u8>) {
        proof {
            reveal(<Quest as ByteConvertable>::encoding);
        }
        let mut bytes = self.quest_id.to_bytes(None);
        let mut piece = self.active.to_bytes(None);
        bytes.append(&mut piece);
        let mut piece = self.remaining_time.to_bytes(None);
        bytes.append(&mut piece);
        let mut piece = self.expire_time.to_bytes(None);
        bytes.append(&mut piece);
        let mut piece = self.objective_count.to_bytes(None);
        bytes.append(&mut piece);
        let mut piece = encode_repeated::<QuestDetails>(&self.objective_details);
        bytes.append(&mut piece);
        bytes
    }

    proof fn lemma_round_trip(
        value: QuestModel,
        length_hint: Option<usize>,
        data: Seq<u8>,
        at: int,
    ) {
        reveal(<Quest as ByteConvertable>::decoding);
        reveal(<Quest as ByteConvertable>::encoding);
        let piece_0 = u32::encoding(value.quest_id, None);
        let piece_1 = u8::encoding(value.active, None);
        let piece_2 = u32::encoding(value.remaining_time, None);
        let piece_3 = u32::encoding(value.expire_time, None);
        let piece_4 = u16::encoding(value.objective_count, None);
        let piece_5 = repeated_encoding::<QuestDetails>(value.objective_details);
        let front_1 = piece_0;
        let front_2 = front_1 + piece_1;
        let front_3 = front_2 + piece_2;
        let front_4 = front_3 + piece_3;
        let front_5 = front_4 + piece_4;
        lemma_holds_at_split(data, at, front_5, piece_5);
        lemma_holds_at_split(data, at, front_4, piece_4);
        lemma_holds_at_split(data, at, front_3, piece_3);
        lemma_holds_at_split(data, at, front_2, piece_2);
        lemma_holds_at_split(data, at, front_1, piece_1);
        u32::lemma_round_trip(value.quest_id, None, data, at);
        u8::lemma_round_trip(value.active, None, data, at + front_1.len());
        u32::lemma_round_trip(value.remaining_time, None, data, at + front_2.len());
        u32::lemma_round_trip(value.expire_time, None, data, at + front_3.len());
        u16::lemma_round_trip(value.objective_count, None, data, at + front_4.len());
        lemma_repeated_round_trip::<QuestDetails>(
            value.objective_details,
            data,
            at + front_5.len(),
        );
    }
}

#[derive(Clone, Debug)]
pub struct QuestListPacket {
    pub packet_length: u16,
    pub quest_count: u32,
    pub quests: Vec<Quest>,
}

/// What a [`QuestListPacket`] stands for.
pub struct QuestListPacketModel {
    pub packet_length: u16,
    pub quest_count: u32,
    pub quests: Seq<QuestModel>,
}

impl Packet for QuestListPacket {
    type Model = QuestListPacketModel;

    const PACKET_NAME: &'static str = "QuestListPacket";

    const IS_PING: bool = false;

    open spec fn model(&self) -> QuestListPacketModel {
        QuestListPacketModel {
            packet_length: self.packet_length.model(),
            quest_count: self.quest_count.model(),
            quests: models(self.quests@),
        }
    }

    open spec fn packet_header() -> u16 {
        0x09f8
    }

    #[verifier::opaque]
    open spec fn payload_decoding(data: Seq<u8>, at: int) -> Result<
        (QuestListPacketModel, nat),
        ConversionError,
    > {
        let packet_length = u16::decoding(data, at, None);
        let end = at - 2 + packet_length->Ok_0.0;
        let frame = data.take(end);
        let at_quest_count = behind(at, packet_length);
        let quest_count = u32::decoding(frame, at_quest_count, None);
        let at_quests = behind(at_quest_count, quest_count);
        let quests = repeated_decoding::<Quest>(frame, at_quests, quest_count->Ok_0.0 as nat);
        let behind_all = behind(at_quests, quests);
        if packet_length is Err {
            Err(packet_length->Err_0)
        } else if packet_length->Ok_0.0 < 4 {
            Err(ConversionError::Invalid)
        } else if end > data.len() {
            Err(ConversionError::Incomplete)
        } else if quest_count is Err || quests is Err || behind_all != end {
            Err(ConversionError::Invalid)
        } else {
            Ok(
                (
                    QuestListPacketModel {
                        packet_length: packet_length->Ok_0.0,
                        quest_count: quest_count->Ok_0.0,
                        quests: quests->Ok_0.0,
                    },
                    (behind_all - at) as nat,
                ),
            )
        }
    }

    open spec fn encodable(value: QuestListPacketModel) -> bool {
        &&& all_encodable::<Quest>(value.quests)
        &&& value.quests.len() == value.quest_count
        &&& value.packet_length == 2 + Self::payload_encoding(value).len()
    }

    open spec fn faithful(value: QuestListPacketModel) -> bool {
        all_faithful::<Quest>(value.quests)
    }

    #[verifier::opaque]
    open spec fn payload_encoding(value: QuestListPacketModel) -> Seq<u8> {
        u16::encoding(value.packet_length, None)
            + u32::encoding(value.quest_count, None)
            + repeated_encoding::<Quest>(value.quests)
    }

    fn header() -> (header: u16) {
        0x09f8
    }

    #[verifier::rlimit(40)]
    fn payload_from_bytes(byte_stream: &mut ByteStream) -> (result: Result<
        Self,
        ConversionError,
    >) {
        proof {
            reveal(<QuestListPacket as Packet>::payload_decoding);
        }
        let mut cursor = byte_stream.fork();
        let packet_length = u16::from_bytes(&mut cursor, None)?;
        if packet_length < 4 {
            return Err(ConversionError::Invalid);
        }
        if cursor.remaining_length() < (packet_length - 4) as usize {
            return Err(ConversionError::Incomplete);
        }
        let end = cursor.get_offset() + (packet_length - 4) as usize;
        let mut frame = cursor.frame(end);
        let quest_count = match u32::from_bytes(&mut frame, None) {
            Ok(value) => value,
            Err(_) => return Err(ConversionError::Invalid),
        };
        let quests = match decode_repeated::<Quest>(&mut frame, quest_count as usize) {
            Ok(value) => value,
            Err(_) => return Err(ConversionError::Invalid),
        };
        if !frame.is_empty() {
            return Err(ConversionError::Invalid);
        }
        byte_stream.follow(&frame);
        Ok(QuestListPacket { packet_length, quest_count, quests })
    }

    fn payload_to_bytes(&self) -> (bytes: Vec<u8>) {
        proof {
            reveal(<QuestListPacket as Packet>::payload_encoding);
        }
        let mut bytes = self.packet_length.to_bytes(None);
        let mut piece = self.quest_count.to_bytes(None);
        bytes.append(&mut piece);
        let mut piece = encode_repeated::<Quest>(&self.quests);
        bytes.append(&mut piece);
        bytes
    }

    #[verifier::rlimit(40)]
    proof fn lemma_payload_round_trip(value: QuestListPacketModel, data: Seq<u8>, at: int) {
        reveal(<QuestListPacket as Packet>::payload_decoding);
        reveal(<QuestListPacket as Packet>::payload_encoding);
        let piece_0 = u16::encoding(value.packet_length, None);
        let piece_1 = u32::encoding(value.quest_count, None);
        let piece_2 = repeated_encoding::<Quest>(value.quests);
        let front_1 = piece_0;
        let front_2 = front_1 + piece_1;
        lemma_holds_at_split(data, at, front_2, piece_2);
        lemma_holds_at_split(data, at, front_1, piece_1);
        lemma_holds_at_bounds(data, at, Self::payload_encoding(value));
        let end = at - 2 + value.packet_length;
        let frame = data.take(end);
        u16::lemma_round_trip(value.packet_length, None, data, at);
        lemma_holds_at_take(data, end, at + front_1.len(), piece_1);
        u32::lemma_round_trip(value.quest_count, None, frame, at + front_1.len());
        lemma_holds_at_take(data, end, at + front_2.len(), piece_2);
        lemma_repeated_round_trip::<Quest>(value.quests, frame, at + front_2.len());
    }
}

impl LengthPrefixed for QuestListPacket {
    open spec fn announced_length(value: QuestListPacketModel) -> u16 {
        value.packet_length
    }

    proof fn lemma_exact_length(data: Seq<u8>, at: int) {
        reveal(<QuestListPacket as Packet>::payload_decoding);
    }
}

#[derive(Clone, Copy, Debug, PartialEq, Eq, Structural)]
pub enum QuestEffect {
    Quest,
    Quest2,
    Job,
    Job2,
    Event,
    Event2,
    ClickMe,
    DailyQuest,
    Event3,
    JobQuest,
    JumpingPoring,
    NoEffect,
}

impl QuestEffect {
    /// The number that stands for a variant on the wire.
    pub open spec fn code(self) -> u16 {
        match self {
            QuestEffect::Quest => 0,
            QuestEffect::Quest2 => 1,
            QuestEffect::Job => 2,
            QuestEffect::Job2 => 3,
            QuestEffect::Event => 4,
            QuestEffect::Event2 => 5,
            QuestEffect::ClickMe => 6,
            QuestEffect::DailyQuest => 7,
            QuestEffect::Event3 => 8,
            QuestEffect::JobQuest => 9,
            QuestEffect::JumpingPoring => 10,
            QuestEffect::NoEffect => 9999,
        }
    }

    /// The variant that a number stands for.
    pub open spec fn of_code(code: u16) -> Option<QuestEffect> {
        if code == 0 {
            Some(QuestEffect::Quest)
        } else if code == 1 {
            Some(QuestEffect::Quest2)
        } else if code == 2 {
            Some(QuestEffect::Job)
        } else if code == 3 {
            Some(QuestEffect::Job2)
        } else if code == 4 {
            Some(QuestEffect::Event)
        } else if code == 5 {
            Some(QuestEffect::Event2)
        } else if code == 6 {
            Some(QuestEffect::ClickMe)
        } else if code == 7 {
            Some(QuestEffect::DailyQuest)
        } else if code == 8 {
            Some(QuestEffect::Event3)
        } else if code == 9 {
            Some(QuestEffect::JobQuest)
        } else if code == 10 {
            Some(QuestEffect::JumpingPoring)
        } else if code == 9999 {
            Some(QuestEffect::NoEffect)
        } else {
            None
        }
    }
}

impl ByteConvertable for QuestEffect {
    type Model = QuestEffect;

    open spec fn model(&self) -> QuestEffect {
        *self
    }

    open spec fn accepts(length_hint: Option<usize>) -> bool {
        length_hint is None
    }

    open spec fn decoding(data: Seq<u8>, at: int, length_hint: Option<usize>) -> Result<
        (QuestEffect, nat),
        ConversionError,
    > {
        match u16::decoding(data, at, None) {
            Ok((code, length)) => match QuestEffect::of_code(code) {
                Some(value) => Ok((value, length)),
                None => Err(ConversionError::Invalid),
            },
            Err(error) => Err(error),
        }
    }

    open spec fn encodable(value: QuestEffect, length_hint: Option<usize>) -> bool {
        true
    }

    open spec fn encoding(value: QuestEffect, length_hint: Option<usize>) -> Seq<u8> {
        u16::encoding(value.code(), None)
    }

    fn from_bytes(byte_stream: &mut ByteStream, length_hint: Option<usize>) -> (result: Result<
        Self,
        ConversionError,
    >) {
        let mut cursor = byte_stream.fork();
        let code = u16::from_bytes(&mut cursor, None)?;
        let value = match code {
            0 => QuestEffect::Quest,
            1 => QuestEffect::Quest2,
            2 => QuestEffect::Job,
            3 => QuestEffect::Job2,
            4 => QuestEffect::Event,
            5 => QuestEffect::Event2,
            6 => QuestEffect::ClickMe,
            7 => QuestEffect::DailyQuest,
            8 => QuestEffect::Event3,
            9 => QuestEffect::JobQuest,
            10 => QuestEffect::JumpingPoring,
            9999 => QuestEffect::NoEffect,
            _ => return Err(ConversionError::Invalid),
        };
        byte_stream.follow(&cursor);
        Ok(value)
    }

    fn to_bytes(&self, length_hint: Option<usize>) -> (bytes: Vec<u8>) {
        let code: u16 = match self {
            QuestEffect::Quest => 0,
            QuestEffect::Quest2 => 1,
            QuestEffect::Job => 2,
            QuestEffect::Job2 => 3,
            QuestEffect::Event => 4,
            QuestEffect::Event2 => 5,
            QuestEffect::ClickMe => 6,
            QuestEffect::DailyQuest => 7,
            QuestEffect::Event3 => 8,
            QuestEffect::JobQuest => 9,
            QuestEffect::JumpingPoring => 10,
            QuestEffect::NoEffect => 9999,
        };
        code.to_bytes(None)
    }

    proof fn lemma_round_trip(
        value: QuestEffect,
        length_hint: Option<usize>,
        data: Seq<u8>,
        at: int,
    ) {
        u16::lemma_round_trip(value.code(), None, data, at);
    }
}

impl FixedByteSize for QuestEffect {
    open spec fn size() -> nat {
        2
    }

    fn size_in_bytes() -> (size: usize) {
        2
    }

    proof fn lemma_fixed_size(data: Seq<u8>, at: int, value: QuestEffect) {
        assert(Self::size() == 2);
    }
}

#[derive(Clone, Copy, Debug, PartialEq, Eq, Structural)]
pub enum QuestColor {
    Yellow,
    Orange,
    Green,
    Purple,
}

impl QuestColor {
    /// The number that stands for a variant on the wire.
    pub open spec fn code(self) -> u16 {
        match self {
            QuestColor::Yellow => 0,
            QuestColor::Orange => 1,
            QuestColor::Green => 2,
            QuestColor::Purple => 3,
        }
    }

    /// The variant that a number stands for.
    pub open spec fn of_code(code: u16) -> Option<QuestColor> {
        if code == 0 {
            Some(QuestColor::Yellow)
        } else if code == 1 {
            Some(QuestColor::Orange)
        } else if code == 2 {
            Some(QuestColor::Green)
        } else if code == 3 {
            Some(QuestColor::Purple)
        } else {
            None
        }
    }
}

impl ByteConvertable for QuestColor {
    type Model = QuestColor;

    open spec fn model(&self) -> QuestColor {
        *self
    }

    open spec fn accepts(length_hint: Option<usize>) -> bool {
        length_hint is None
    }

    open spec fn decoding(data: Seq<u8>, at: int, length_hint: Option<usize>) -> Result<
        (QuestColor, nat),
        ConversionError,
    > {
        match u16::decoding(data, at, None) {
            Ok((code, length)) => match QuestColor::of_code(code) {
                Some(value) => Ok((value, length)),
                None => Err(ConversionError::Invalid),
            },
            Err(error) => Err(error),
        }
    }

    open spec fn encodable(value: QuestColor, length_hint: Option<usize>) -> bool {
        true
    }

    open spec fn encoding(value: QuestColor, length_hint: Option<usize>) -> Seq<u8> {
        u16::encoding(value.code(), None)
    }

    fn from_bytes(byte_stream: &mut ByteStream, length_hint: Option<usize>) -> (result: Result<
        Self,
        ConversionError,
    >) {
        let mut cursor = byte_stream.fork();
        let code = u16::from_bytes(&mut cursor, None)?;
        let value = match code {
            0 => QuestColor::Yellow,
            1 => QuestColor::Orange,
            2 => QuestColor::Green,
            3 => QuestColor::Purple,
            _ => return Err(ConversionError::Invalid),
        };
        byte_stream.follow(&cursor);
        Ok(value)
    }

    fn to_bytes(&self, length_hint: Option<usize>) -> (bytes: Vec<u8>) {
        let code: u16 = match self {
            QuestColor::Yellow => 0,
            QuestColor::Orange => 1,
            QuestColor::Green => 2,
            QuestColor::Purple => 3,
        };
        code.to_bytes(None)
    }

    proof fn lemma_round_trip(
        value: QuestColor,
        length_hint: Option<usize>,
        data: Seq<u8>,
        at: int,
    ) {
        u16::lemma_round_trip(value.code(), None, data, at);
    }
}

impl FixedByteSize for QuestColor {
    open spec fn size() -> nat {
        2
    }

    fn size_in_bytes() -> (size: usize) {
        2
    }

    proof fn lemma_fixed_size(data: Seq<u8>, at: int, value: QuestColor) {
        assert(Self::size() == 2);
    }
}

#[derive(Clone, Copy, Debug)]
pub struct QuestEffectPacket {
    pub entity_id: EntityId,
    pub position: Vector2<u16>,
    pub effect: QuestEffect,
    pub color: QuestColor,
}

impl Packet for QuestEffectPacket {
    type Model = QuestEffectPacket;

    const PACKET_NAME: &'static str = "QuestEffectPacket";

    const IS_PING: bool = false;

    open spec fn model(&self) -> QuestEffectPacket {
        *self
    }

    open spec fn packet_header() -> u16 {
        0x0446
    }

    #[verifier::opaque]
    open spec fn payload_decoding(data: Seq<u8>, at: int) -> Result<
        (QuestEffectPacket, nat),
        ConversionError,
    > {
        let entity_id = EntityId::decoding(data, at, None);
        let at_position = behind(at, entity_id);
        let position = Vector2::<u16>::decoding(data, at_position, None);
        let at_effect = behind(at_position, position);
        let effect = QuestEffect::decoding(data, at_effect, None);
        let at_color = behind(at_effect, effect);
        let color = QuestColor::decoding(data, at_color, None);
        let behind_all = behind(at_color, color);
        if entity_id is Err {
            Err(entity_id->Err_0)
        } else if position is Err {
            Err(position->Err_0)
        } else if effect is Err {
            Err(effect->Err_0)
        } else if color is Err {
            Err(color->Err_0)
        } else {
            Ok(
                (
                    QuestEffectPacket {
                        entity_id: entity_id->Ok_0.0,
                        position: position->Ok_0.0,
                        effect: effect->Ok_0.0,
                        color: color->Ok_0.0,
                    },
                    (behind_all - at) as nat,
                ),
            )
        }
    }

    open spec fn encodable(value: QuestEffectPacket) -> bool {
        true
    }

    #[verifier::opaque]
    open spec fn payload_encoding(value: QuestEffectPacket) -> Seq<u8> {
        EntityId::encoding(value.entity_id, None)
            + Vector2::<u16>::encoding(value.position, None)
            + QuestEffect::encoding(value.effect, None)
            + QuestColor::encoding(value.color, None)
    }

    fn header() -> (header: u16) {
        0x0446
    }

    fn payload_from_bytes(byte_stream: &mut ByteStream) -> (result: Result<
        Self,
        ConversionError,
    >) {
        proof {
            reveal(<QuestEffectPacket as Packet>::payload_decoding);
        }
        let mut cursor = byte_stream.fork();
        let entity_id = EntityId::from_bytes(&mut cursor, None)?;
        let position = Vector2::<u16>::from_bytes(&mut cursor, None)?;
        let effect = QuestEffect::from_bytes(&mut cursor, None)?;
        let color = QuestColor::from_bytes(&mut cursor, None)?;
        byte_stream.follow(&cursor);
        Ok(QuestEffectPacket { entity_id, position, effect, color })
    }

    fn payload_to_bytes(&self) -> (bytes: Vec<u8>) {
        proof {
            reveal(<QuestEffectPacket as Packet>::payload_encoding);
        }
        let mut bytes = self.entity_id.to_bytes(None);
        let mut piece = self.position.to_bytes(None);
        bytes.append(&mut piece);
        let mut piece = self.effect.to_bytes(None);
        bytes.append(&mut piece);
        let mut piece = self.color.to_bytes(None);
        bytes.append(&mut piece);
        bytes
    }

    proof fn lemma_payload_round_trip(value: QuestEffectPacket, data: Seq<u8>, at: int) {
        reveal(<QuestEffectPacket as Packet>::payload_decoding);
        reveal(<QuestEffectPacket as Packet>::payload_encoding);
        let piece_0 = EntityId::encoding(value.entity_id, None);
        let piece_1 = Vector2::<u16>::encoding(value.position, None);
        let piece_2 = QuestEffect::encoding(value.effect, None);
        let piece_3 = QuestColor::encoding(value.color, None);
        let front_1 = piece_0;
        let front_2 = front_1 + piece_1;
        let front_3 = front_2 + piece_2;
        lemma_holds_at_split(data, at, front_3, piece_3);
        lemma_holds_at_split(data, at, front_2, piece_2);
        lemma_holds_at_split(data, at, front_1, piece_1);
        EntityId::lemma_round_trip(value.entity_id, None, data, at);
        Vector2::<u16>::lemma_round_trip(value.position, None, data, at + front_1.len());
        QuestEffect::lemma_round_trip(value.effect, None, data, at + front_2.len());
        QuestColor::lemma_round_trip(value.color, None, data, at + front_3.len());
    }
}

} // verus!
