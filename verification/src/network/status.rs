//! The packets about the status of the player.

use vstd::prelude::*;

use crate::loaders::convertable::{
    all_encodable, behind, decode_repeated, encode_repeated, lemma_repeated_round_trip, models,
    repeated_decoding, repeated_encoding, ByteConvertable, FixedByteSize,
};
use crate::loaders::stream::{ByteStream, ConversionError};
use crate::loaders::wire::{
    holds_at, lemma_holds_at_bounds, lemma_holds_at_split, lemma_holds_at_take,
};
use crate::network::ids::{AccountId, EntityId};
use crate::network::quest::Quest;
use crate::network::status_type::StatusType;
use crate::network::packet::{LengthPrefixed, Packet};

verus! {

#[derive(Clone, Copy, Debug)]
pub struct UpdateStatusPacket {
    pub status_type: StatusType,
}

impl Packet for UpdateStatusPacket {
    type Model = UpdateStatusPacket;

    const PACKET_NAME: &'static str = "UpdateStatusPacket";

    const IS_PING: bool = false;

    open spec fn model(&self) -> UpdateStatusPacket {
        *self
    }

    open spec fn packet_header() -> u16 {
        0x00b0
    }

    #[verifier::opaque]
    open spec fn payload_decoding(data: Seq<u8>, at: int) -> Result<
        (UpdateStatusPacket, nat),
        ConversionError,
    > {
        let status_type = StatusType::decoding(data, at, Some(6));
        let behind_all = behind(at, status_type);
        if status_type is Err {
            Err(status_type->Err_0)
        } else {
            Ok(
                (
                    UpdateStatusPacket {
                        status_type: status_type->Ok_0.0,
                    },
                    (behind_all - at) as nat,
                ),
            )
        }
    }

    open spec fn encodable(value: UpdateStatusPacket) -> bool {
        StatusType::encodable(value.status_type, Some(6))
    }

    #[verifier::opaque]
    open spec fn payload_encoding(value: UpdateStatusPacket) -> Seq<u8> {
        StatusType::encoding(value.status_type, Some(6))
    }

    fn header() -> (header: u16) {
        0x00b0
    }

    fn payload_from_bytes(byte_stream: &mut ByteStream) -> (result: Result<
        Self,
        ConversionError,
    >) {
        proof {
            reveal(<UpdateStatusPacket as Packet>::payload_decoding);
        }
        let mut cursor = byte_stream.fork();
        let status_type = StatusType::from_bytes(&mut cursor, Some(6))?;
        byte_stream.follow(&cursor);
        Ok(UpdateStatusPacket { status_type })
    }

    fn payload_to_bytes(&self) -> (bytes: Vec<u8>) {
        proof {
            reveal(<UpdateStatusPacket as Packet>::payload_encoding);
        }
        let bytes = self.status_type.to_bytes(Some(6));
        bytes
    }

    proof fn lemma_payload_round_trip(value: UpdateStatusPacket, data: Seq<u8>, at: int) {
        reveal(<UpdateStatusPacket as Packet>::payload_decoding);
        reveal(<UpdateStatusPacket as Packet>::payload_encoding);
        let piece_0 = StatusType::encoding(value.status_type, Some(6));
        StatusType::lemma_round_trip(value.status_type, Some(6), data, at);
    }
}

#[derive(Clone, Copy, Debug)]
pub struct UpdateStatusPacket1 {
    pub status_type: StatusType,
}

impl Packet for UpdateStatusPacket1 {
    type Model = UpdateStatusPacket1;

    const PACKET_NAME: &'static str = "UpdateStatusPacket1";

    const IS_PING: bool = false;

    open spec fn model(&self) -> UpdateStatusPacket1 {
        *self
    }

    open spec fn packet_header() -> u16 {
        0x0141
    }

    #[verifier::opaque]
    open spec fn payload_decoding(data: Seq<u8>, at: int) -> Result<
        (UpdateStatusPacket1, nat),
        ConversionError,
    > {
        let status_type = StatusType::decoding(data, at, Some(12));
        let behind_all = behind(at, status_type);
        if status_type is Err {
            Err(status_type->Err_0)
        } else {
            Ok(
                (
                    UpdateStatusPacket1 {
                        status_type: status_type->Ok_0.0,
                    },
                    (behind_all - at) as nat,
                ),
            )
        }
    }

    open spec fn encodable(value: UpdateStatusPacket1) -> bool {
        StatusType::encodable(value.status_type, Some(12))
    }

    #[verifier::opaque]
    open spec fn payload_encoding(value: UpdateStatusPacket1) -> Seq<u8> {
        StatusType::encoding(value.status_type, Some(12))
    }

    fn header() -> (header: u16) {
        0x0141
    }

    fn payload_from_bytes(byte_stream: &mut ByteStream) -> (result: Result<
        Self,
        ConversionError,
    >) {
        proof {
            reveal(<UpdateStatusPacket1 as Packet>::payload_decoding);
        }
        let mut cursor = byte_stream.fork();
        let status_type = StatusType::from_bytes(&mut cursor, Some(12))?;
        byte_stream.follow(&cursor);
        Ok(UpdateStatusPacket1 { status_type })
    }

    fn payload_to_bytes(&self) -> (bytes: Vec<u8>) {
        proof {
            reveal(<UpdateStatusPacket1 as Packet>::payload_encoding);
        }
        let bytes = self.status_type.to_bytes(Some(12));
        bytes
    }

    proof fn lemma_payload_round_trip(value: UpdateStatusPacket1, data: Seq<u8>, at: int) {
        reveal(<UpdateStatusPacket1 as Packet>::payload_decoding);
        reveal(<UpdateStatusPacket1 as Packet>::payload_encoding);
        let piece_0 = StatusType::encoding(value.status_type, Some(12));
        StatusType::lemma_round_trip(value.status_type, Some(12), data, at);
    }
}

#[derive(Clone, Copy, Debug)]
pub struct UpdateStatusPacket2 {
    pub status_type: StatusType,
}

impl Packet for UpdateStatusPacket2 {
    type Model = UpdateStatusPacket2;

    const PACKET_NAME: &'static str = "UpdateStatusPacket2";

    const IS_PING: bool = false;

    open spec fn model(&self) -> UpdateStatusPacket2 {
        *self
    }

    open spec fn packet_header() -> u16 {
        0x0acb
    }

    #[verifier::opaque]
    open spec fn payload_decoding(data: Seq<u8>, at: int) -> Result<
        (UpdateStatusPacket2, nat),
        ConversionError,
    > {
        let status_type = StatusType::decoding(data, at, Some(10));
        let behind_all = behind(at, status_type);
        if status_type is Err {
            Err(status_type->Err_0)
        } else {
            Ok(
                (
                    UpdateStatusPacket2 {
                        status_type: status_type->Ok_0.0,
                    },
                    (behind_all - at) as nat,
                ),
            )
        }
    }

    open spec fn encodable(value: UpdateStatusPacket2) -> bool {
        StatusType::encodable(value.status_type, Some(10))
    }

    #[verifier::opaque]
    open spec fn payload_encoding(value: UpdateStatusPacket2) -> Seq<u8> {
        StatusType::encoding(value.status_type, Some(10))
    }

    fn header() -> (header: u16) {
        0x0acb
    }

    fn payload_from_bytes(byte_stream: &mut ByteStream) -> (result: Result<
        Self,
        ConversionError,
    >) {
        proof {
            reveal(<UpdateStatusPacket2 as Packet>::payload_decoding);
        }
        let mut cursor = byte_stream.fork();
        let status_type = StatusType::from_bytes(&mut cursor, Some(10))?;
        byte_stream.follow(&cursor);
        Ok(UpdateStatusPacket2 { status_type })
    }

    fn payload_to_bytes(&self) -> (bytes: Vec<u8>) {
        proof {
            reveal(<UpdateStatusPacket2 as Packet>::payload_encoding);
        }
        let bytes = self.status_type.to_bytes(Some(10));
        bytes
    }

    proof fn lemma_payload_round_trip(value: UpdateStatusPacket2, data: Seq<u8>, at: int) {
        reveal(<UpdateStatusPacket2 as Packet>::payload_decoding);
        reveal(<UpdateStatusPacket2 as Packet>::payload_encoding);
        let piece_0 = StatusType::encoding(value.status_type, Some(10));
        StatusType::lemma_round_trip(value.status_type, Some(10), data, at);
    }
}

#[derive(Clone, Copy, Debug)]
pub struct UpdateStatusPacket3 {
    pub status_type: StatusType,
}

impl Packet for UpdateStatusPacket3 {
    type Model = UpdateStatusPacket3;

    const PACKET_NAME: &'static str = "UpdateStatusPacket3";

    const IS_PING: bool = false;

    open spec fn model(&self) -> UpdateStatusPacket3 {
        *self
    }

    open spec fn packet_header() -> u16 {
        0x00be
    }

    #[verifier::opaque]
    open spec fn payload_decoding(data: Seq<u8>, at: int) -> Result<
        (UpdateStatusPacket3, nat),
        ConversionError,
    > {
        let status_type = StatusType::decoding(data, at, Some(3));
        let behind_all = behind(at, status_type);
        if status_type is Err {
            Err(status_type->Err_0)
        } else {
            Ok(
                (
                    UpdateStatusPacket3 {
                        status_type: status_type->Ok_0.0,
                    },
                    (behind_all - at) as nat,
                ),
            )
        }
    }

    open spec fn encodable(value: UpdateStatusPacket3) -> bool {
        StatusType::encodable(value.status_type, Some(3))
    }

    #[verifier::opaque]
    open spec fn payload_encoding(value: UpdateStatusPacket3) -> Seq<u8> {
        StatusType::encoding(value.status_type, Some(3))
    }

    fn header() -> (header: u16) {
        0x00be
    }

    fn payload_from_bytes(byte_stream: &mut ByteStream) -> (result: Result<
        Self,
        ConversionError,
    >) {
        proof {
            reveal(<UpdateStatusPacket3 as Packet>::payload_decoding);
        }
        let mut cursor = byte_stream.fork();
        let status_type = StatusType::from_bytes(&mut cursor, Some(3))?;
        byte_stream.follow(&cursor);
        Ok(UpdateStatusPacket3 { status_type })
    }

    fn payload_to_bytes(&self) -> (bytes: Vec<u8>) {
        proof {
            reveal(<UpdateStatusPacket3 as Packet>::payload_encoding);
        }
        let bytes = self.status_type.to_bytes(Some(3));
        bytes
    }

    proof fn lemma_payload_round_trip(value: UpdateStatusPacket3, data: Seq<u8>, at: int) {
        reveal(<UpdateStatusPacket3 as Packet>::payload_decoding);
        reveal(<UpdateStatusPacket3 as Packet>::payload_encoding);
        let piece_0 = StatusType::encoding(value.status_type, Some(3));
        StatusType::lemma_round_trip(value.status_type, Some(3), data, at);
    }
}

#[derive(Clone, Copy, Debug)]
pub struct StatusChangeSequencePacket {
    pub index: u16,
    pub id: u32,
    pub state: u8,
}

impl Packet for StatusChangeSequencePacket {
    type Model = StatusChangeSequencePacket;

    const PACKET_NAME: &'static str = "StatusChangeSequencePacket";

    const IS_PING: bool = false;

    open spec fn model(&self) -> StatusChangeSequencePacket {
        *self
    }

    open spec fn packet_header() -> u16 {
        0x0196
    }

    #[verifier::opaque]
    open spec fn payload_decoding(data: Seq<u8>, at: int) -> Result<
        (StatusChangeSequencePacket, nat),
        ConversionError,
    > {
        let index = u16::decoding(data, at, None);
        let at_id = behind(at, index);
        let id = u32::decoding(data, at_id, None);
        let at_state = behind(at_id, id);
        let state = u8::decoding(data, at_state, None);
        let behind_all = behind(at_state, state);
        if index is Err {
            Err(index->Err_0)
        } else if id is Err {
            Err(id->Err_0)
        } else if state is Err {
            Err(state->Err_0)
        } else {
            Ok(
                (
                    StatusChangeSequencePacket {
                        index: index->Ok_0.0,
                        id: id->Ok_0.0,
                        state: state->Ok_0.0,
                    },
                    (behind_all - at) as nat,
                ),
            )
        }
    }

    open spec fn encodable(value: StatusChangeSequencePacket) -> bool {
        true
    }

    #[verifier::opaque]
    open spec fn payload_encoding(value: StatusChangeSequencePacket) -> Seq<u8> {
        u16::encoding(value.index, None)
            + u32::encoding(value.id, None)
            + u8::encoding(value.state, None)
    }

    fn header() -> (header: u16) {
        0x0196
    }

    fn payload_from_bytes(byte_stream: &mut ByteStream) -> (result: Result<
        Self,
        ConversionError,
    >) {
        proof {
            reveal(<StatusChangeSequencePacket as Packet>::payload_decoding);
        }
        let mut cursor = byte_stream.fork();
        let index = u16::from_bytes(&mut cursor, None)?;
        let id = u32::from_bytes(&mut cursor, None)?;
        let state = u8::from_bytes(&mut cursor, None)?;
        byte_stream.follow(&cursor);
        Ok(StatusChangeSequencePacket { index, id, state })
    }

    fn payload_to_bytes(&self) -> (bytes: Vec<u8>) {
        proof {
            reveal(<StatusChangeSequencePacket as Packet>::payload_encoding);
        }
        let mut bytes = self.index.to_bytes(None);
        let mut piece = self.id.to_bytes(None);
        bytes.append(&mut piece);
        let mut piece = self.state.to_bytes(None);
        bytes.append(&mut piece);
        bytes
    }

    proof fn lemma_payload_round_trip(value: StatusChangeSequencePacket, data: Seq<u8>, at: int) {
        reveal(<StatusChangeSequencePacket as Packet>::payload_decoding);
        reveal(<StatusChangeSequencePacket as Packet>::payload_encoding);
        let piece_0 = u16::encoding(value.index, None);
        let piece_1 = u32::encoding(value.id, None);
        let piece_2 = u8::encoding(value.state, None);
        let front_1 = piece_0;
        let front_2 = front_1 + piece_1;
        lemma_holds_at_split(data, at, front_2, piece_2);
        lemma_holds_at_split(data, at, front_1, piece_1);
        u16::lemma_round_trip(value.index, None, data, at);
        u32::lemma_round_trip(value.id, None, data, at + front_1.len());
        u8::lemma_round_trip(value.state, None, data, at + front_2.len());
    }
}

/// Sent by the character server to the client when loading onto a new map.
/// This packet is ignored by the client since all of the provided values are set
/// again individually using the UpdateStatusPackets.
#[derive(Clone, Copy, Debug)]
pub struct InitialStatusPacket {
    pub status_points: u16,
    pub strength: u8,
    pub required_strength: u8,
    pub agility: u8,
    pub required_agility: u8,
    pub vitatity: u8,
    pub required_vitatity: u8,
    pub intelligence: u8,
    pub required_intelligence: u8,
    pub dexterity: u8,
    pub required_dexterity: u8,
    pub luck: u8,
    pub required_luck: u8,
    pub left_attack: u16,
    pub rigth_attack: u16,
    pub rigth_magic_attack: u16,
    pub left_magic_attack: u16,
    pub left_defense: u16,
    pub rigth_defense: u16,
    pub rigth_magic_defense: u16,
    pub left_magic_defense: u16,
    pub hit: u16,
    pub flee: u16,
    pub flee2: u16,
    pub crit: u16,
    pub attack_speed: u16,
    /// Always 0 on rAthena
    pub bonus_attack_speed: u16,
}

impl InitialStatusPacket {
    /// What the fields from `status_points` to `intelligence` decode to.
    #[verifier::opaque]
    pub open spec fn decoding_part_1(data: Seq<u8>, at: int) -> Result<
        ((u16, u8, u8, u8, u8, u8, u8, u8), nat),
        ConversionError,
    > {
        let status_points = u16::decoding(data, at, None);
        let at_strength = behind(at, status_points);
        let strength = u8::decoding(data, at_strength, None);
        let at_required_strength = behind(at_strength, strength);
        let required_strength = u8::decoding(data, at_required_strength, None);
        let at_agility = behind(at_required_strength, required_strength);
        let agility = u8::decoding(data, at_agility, None);
        let at_required_agility = behind(at_agility, agility);
        let required_agility = u8::decoding(data, at_required_agility, None);
        let at_vitatity = behind(at_required_agility, required_agility);
        let vitatity = u8::decoding(data, at_vitatity, None);
        let at_required_vitatity = behind(at_vitatity, vitatity);
        let required_vitatity = u8::decoding(data, at_required_vitatity, None);
        let at_intelligence = behind(at_required_vitatity, required_vitatity);
        let intelligence = u8::decoding(data, at_intelligence, None);
        let behind_all = behind(at_intelligence, intelligence);
        if status_points is Err {
            Err(status_points->Err_0)
        } else if strength is Err {
            Err(strength->Err_0)
        } else if required_strength is Err {
            Err(required_strength->Err_0)
        } else if agility is Err {
            Err(agility->Err_0)
        } else if required_agility is Err {
            Err(required_agility->Err_0)
        } else if vitatity is Err {
            Err(vitatity->Err_0)
        } else if required_vitatity is Err {
            Err(required_vitatity->Err_0)
        } else if intelligence is Err {
            Err(intelligence->Err_0)
        } else {
            Ok(
                (
                    (
                        status_points->Ok_0.0,
                        strength->Ok_0.0,
                        required_strength->Ok_0.0,
                        agility->Ok_0.0,
                        required_agility->Ok_0.0,
                        vitatity->Ok_0.0,
                        required_vitatity->Ok_0.0,
                        intelligence->Ok_0.0,
                    ),
                    (behind_all - at) as nat,
                ),
            )
        }
    }

    /// The wire form of the fields from `status_points` to `intelligence`.
    #[verifier::opaque]
    pub open spec fn encoding_part_1(value: InitialStatusPacket) -> Seq<u8> {
        u16::encoding(value.status_points, None)
            + u8::encoding(value.strength, None)
            + u8::encoding(value.required_strength, None)
            + u8::encoding(value.agility, None)
            + u8::encoding(value.required_agility, None)
            + u8::encoding(value.vitatity, None)
            + u8::encoding(value.required_vitatity, None)
            + u8::encoding(value.intelligence, None)
    }

    fn decode_part_1(byte_stream: &mut ByteStream) -> (result: Result<
        (u16, u8, u8, u8, u8, u8, u8, u8),
        ConversionError,
    >)
        ensures
            final(byte_stream).data() == old(byte_stream).data(),
            final(byte_stream).version() == old(byte_stream).version(),
            match Self::decoding_part_1(old(byte_stream).data(), old(byte_stream).offset() as int) {
                Ok((value, length)) => {
                    &&& result is Ok
                    &&& result->Ok_0.0.model() == value.0
                    &&& result->Ok_0.1.model() == value.1
                    &&& result->Ok_0.2.model() == value.2
                    &&& result->Ok_0.3.model() == value.3
                    &&& result->Ok_0.4.model() == value.4
                    &&& result->Ok_0.5.model() == value.5
                    &&& result->Ok_0.6.model() == value.6
                    &&& result->Ok_0.7.model() == value.7
                    &&& final(byte_stream).offset() == old(byte_stream).offset() + length
                },
                Err(error) => {
                    &&& result is Err
                    &&& result->Err_0 == error
                    &&& final(byte_stream).offset() == old(byte_stream).offset()
                },
            },
    {
        proof {
            reveal(InitialStatusPacket::decoding_part_1);
        }
        let mut cursor = byte_stream.fork();
        let status_points = u16::from_bytes(&mut cursor, None)?;
        let strength = u8::from_bytes(&mut cursor, None)?;
        let required_strength = u8::from_bytes(&mut cursor, None)?;
        let agility = u8::from_bytes(&mut cursor, None)?;
        let required_agility = u8::from_bytes(&mut cursor, None)?;
        let vitatity = u8::from_bytes(&mut cursor, None)?;
        let required_vitatity = u8::from_bytes(&mut cursor, None)?;
        let intelligence = u8::from_bytes(&mut cursor, None)?;
        byte_stream.follow(&cursor);
        Ok((
            status_points,
            strength,
            required_strength,
            agility,
            required_agility,
            vitatity,
            required_vitatity,
            intelligence,
        ))
    }

    fn encode_part_1(&self) -> (bytes: Vec<u8>)
        ensures
            bytes@ == Self::encoding_part_1(self.model()),
    {
        proof {
            reveal(InitialStatusPacket::encoding_part_1);
        }
        let mut bytes = self.status_points.to_bytes(None);
        let mut piece = self.strength.to_bytes(None);
        bytes.append(&mut piece);
        let mut piece = self.required_strength.to_bytes(None);
        bytes.append(&mut piece);
        let mut piece = self.agility.to_bytes(None);
        bytes.append(&mut piece);
        let mut piece = self.required_agility.to_bytes(None);
        bytes.append(&mut piece);
        let mut piece = self.vitatity.to_bytes(None);
        bytes.append(&mut piece);
        let mut piece = self.required_vitatity.to_bytes(None);
        bytes.append(&mut piece);
        let mut piece = self.intelligence.to_bytes(None);
        bytes.append(&mut piece);
        bytes
    }

    #[verifier::rlimit(50)]
    proof fn lemma_round_trip_part_1(value: InitialStatusPacket, data: Seq<u8>, at: int)
        requires
            holds_at(data, at, Self::encoding_part_1(value)),
        ensures
            Self::decoding_part_1(data, at) == Ok::<
                ((u16, u8, u8, u8, u8, u8, u8, u8), nat),
                ConversionError,
            >(
                (
                    (
                        value.status_points,
                        value.strength,
                        value.required_strength,
                        value.agility,
                        value.required_agility,
                        value.vitatity,
                        value.required_vitatity,
                        value.intelligence,
                    ),
                    Self::encoding_part_1(value).len(),
                ),
            ),
    {
        reveal(InitialStatusPacket::decoding_part_1);
        reveal(InitialStatusPacket::encoding_part_1);
        let piece_0 = u16::encoding(value.status_points, None);
        let piece_1 = u8::encoding(value.strength, None);
        let piece_2 = u8::encoding(value.required_strength, None);
        let piece_3 = u8::encoding(value.agility, None);
        let piece_4 = u8::encoding(value.required_agility, None);
        let piece_5 = u8::encoding(value.vitatity, None);
        let piece_6 = u8::encoding(value.required_vitatity, None);
        let piece_7 = u8::encoding(value.intelligence, None);
        let front_1 = piece_0;
        let front_2 = front_1 + piece_1;
        let front_3 = front_2 + piece_2;
        let front_4 = front_3 + piece_3;
        let front_5 = front_4 + piece_4;
        let front_6 = front_5 + piece_5;
        let front_7 = front_6 + piece_6;
        lemma_holds_at_split(data, at, front_7, piece_7);
        lemma_holds_at_split(data, at, front_6, piece_6);
        lemma_holds_at_split(data, at, front_5, piece_5);
        lemma_holds_at_split(data, at, front_4, piece_4);
        lemma_holds_at_split(data, at, front_3, piece_3);
        lemma_holds_at_split(data, at, front_2, piece_2);
        lemma_holds_at_split(data, at, front_1, piece_1);
        u16::lemma_round_trip(value.status_points, None, data, at);
        u8::lemma_round_trip(value.strength, None, data, at + front_1.len());
        u8::lemma_round_trip(value.required_strength, None, data, at + front_2.len());
        u8::lemma_round_trip(value.agility, None, data, at + front_3.len());
        u8::lemma_round_trip(value.required_agility, None, data, at + front_4.len());
        u8::lemma_round_trip(value.vitatity, None, data, at + front_5.len());
        u8::lemma_round_trip(value.required_vitatity, None, data, at + front_6.len());
        u8::lemma_round_trip(value.intelligence, None, data, at + front_7.len());
    }

    proof fn lemma_size_part_1(data: Seq<u8>, at: int, value: InitialStatusPacket)
        ensures
            Self::decoding_part_1(data, at) matches Ok((_, length)) ==> length == 9,
            Self::encoding_part_1(value).len() == 9,
    {
        reveal(InitialStatusPacket::decoding_part_1);
        reveal(InitialStatusPacket::encoding_part_1);
        u16::lemma_fixed_size(data, at, value.status_points);
        u8::lemma_fixed_size(data, at + 2, value.strength);
        u8::lemma_fixed_size(data, at + 3, value.required_strength);
        u8::lemma_fixed_size(data, at + 4, value.agility);
        u8::lemma_fixed_size(data, at + 5, value.required_agility);
        u8::lemma_fixed_size(data, at + 6, value.vitatity);
        u8::lemma_fixed_size(data, at + 7, value.required_vitatity);
        u8::lemma_fixed_size(data, at + 8, value.intelligence);
    }

    /// What the fields from `required_intelligence` to `rigth_magic_attack` decode to.
    #[verifier::opaque]
    pub open spec fn decoding_part_2(data: Seq<u8>, at: int) -> Result<
        ((u8, u8, u8, u8, u8, u16, u16, u16), nat),
        ConversionError,
    > {
        let required_intelligence = u8::decoding(data, at, None);
        let at_dexterity = behind(at, required_intelligence);
        let dexterity = u8::decoding(data, at_dexterity, None);
        let at_required_dexterity = behind(at_dexterity, dexterity);
        let required_dexterity = u8::decoding(data, at_required_dexterity, None);
        let at_luck = behind(at_required_dexterity, required_dexterity);
        let luck = u8::decoding(data, at_luck, None);
        let at_required_luck = behind(at_luck, luck);
        let required_luck = u8::decoding(data, at_required_luck, None);
        let at_left_attack = behind(at_required_luck, required_luck);
        let left_attack = u16::decoding(data, at_left_attack, None);
        let at_rigth_attack = behind(at_left_attack, left_attack);
        let rigth_attack = u16::decoding(data, at_rigth_attack, None);
        let at_rigth_magic_attack = behind(at_rigth_attack, rigth_attack);
        let rigth_magic_attack = u16::decoding(data, at_rigth_magic_attack, None);
        let behind_all = behind(at_rigth_magic_attack, rigth_magic_attack);
        if required_intelligence is Err {
            Err(required_intelligence->Err_0)
        } else if dexterity is Err {
            Err(dexterity->Err_0)
        } else if required_dexterity is Err {
            Err(required_dexterity->Err_0)
        } else if luck is Err {
            Err(luck->Err_0)
        } else if required_luck is Err {
            Err(required_luck->Err_0)
        } else if left_attack is Err {
            Err(left_attack->Err_0)
        } else if rigth_attack is Err {
            Err(rigth_attack->Err_0)
        } else if rigth_magic_attack is Err {
            Err(rigth_magic_attack->Err_0)
        } else {
            Ok(
                (
                    (
                        required_intelligence->Ok_0.0,
                        dexterity->Ok_0.0,
                        required_dexterity->Ok_0.0,
                        luck->Ok_0.0,
                        required_luck->Ok_0.0,
                        left_attack->Ok_0.0,
                        rigth_attack->Ok_0.0,
                        rigth_magic_attack->Ok_0.0,
                    ),
                    (behind_all - at) as nat,
                ),
            )
        }
    }

    /// The wire form of the fields from `required_intelligence` to `rigth_magic_attack`.
    #[verifier::opaque]
    pub open spec fn encoding_part_2(value: InitialStatusPacket) -> Seq<u8> {
        u8::encoding(value.required_intelligence, None)
            + u8::encoding(value.dexterity, None)
            + u8::encoding(value.required_dexterity, None)
            + u8::encoding(value.luck, None)
            + u8::encoding(value.required_luck, None)
            + u16::encoding(value.left_attack, None)
            + u16::encoding(value.rigth_attack, None)
            + u16::encoding(value.rigth_magic_attack, None)
    }

    fn decode_part_2(byte_stream: &mut ByteStream) -> (result: Result<
        (u8, u8, u8, u8, u8, u16, u16, u16),
        ConversionError,
    >)
        ensures
            final(byte_stream).data() == old(byte_stream).data(),
            final(byte_stream).version() == old(byte_stream).version(),
            match Self::decoding_part_2(old(byte_stream).data(), old(byte_stream).offset() as int) {
                Ok((value, length)) => {
                    &&& result is Ok
                    &&& result->Ok_0.0.model() == value.0
                    &&& result->Ok_0.1.model() == value.1
                    &&& result->Ok_0.2.model() == value.2
                    &&& result->Ok_0.3.model() == value.3
                    &&& result->Ok_0.4.model() == value.4
                    &&& result->Ok_0.5.model() == value.5
                    &&& result->Ok_0.6.model() == value.6
                    &&& result->Ok_0.7.model() == value.7
                    &&& final(byte_stream).offset() == old(byte_stream).offset() + length
                },
                Err(error) => {
                    &&& result is Err
                    &&& result->Err_0 == error
                    &&& final(byte_stream).offset() == old(byte_stream).offset()
                },
            },
    {
        proof {
            reveal(InitialStatusPacket::decoding_part_2);
        }
        let mut cursor = byte_stream.fork();
        let required_intelligence = u8::from_bytes(&mut cursor, None)?;
        let dexterity = u8::from_bytes(&mut cursor, None)?;
        let required_dexterity = u8::from_bytes(&mut cursor, None)?;
        let luck = u8::from_bytes(&mut cursor, None)?;
        let required_luck = u8::from_bytes(&mut cursor, None)?;
        let left_attack = u16::from_bytes(&mut cursor, None)?;
        let rigth_attack = u16::from_bytes(&mut cursor, None)?;
        let rigth_magic_attack = u16::from_bytes(&mut cursor, None)?;
        byte_stream.follow(&cursor);
        Ok((
            required_intelligence,
            dexterity,
            required_dexterity,
            luck,
            required_luck,
            left_attack,
            rigth_attack,
            rigth_magic_attack,
        ))
    }

    fn encode_part_2(&self) -> (bytes: Vec<u8>)
        ensures
            bytes@ == Self::encoding_part_2(self.model()),
    {
        proof {
            reveal(InitialStatusPacket::encoding_part_2);
        }
        let mut bytes = self.required_intelligence.to_bytes(None);
        let mut piece = self.dexterity.to_bytes(None);
        bytes.append(&mut piece);
        let mut piece = self.required_dexterity.to_bytes(None);
        bytes.append(&mut piece);
        let mut piece = self.luck.to_bytes(None);
        bytes.append(&mut piece);
        let mut piece = self.required_luck.to_bytes(None);
        bytes.append(&mut piece);
        let mut piece = self.left_attack.to_bytes(None);
        bytes.append(&mut piece);
        let mut piece = self.rigth_attack.to_bytes(None);
        bytes.append(&mut piece);
        let mut piece = self.rigth_magic_attack.to_bytes(None);
        bytes.append(&mut piece);
        bytes
    }

    #[verifier::rlimit(50)]
    proof fn lemma_round_trip_part_2(value: InitialStatusPacket, data: Seq<u8>, at: int)
        requires
            holds_at(data, at, Self::encoding_part_2(value)),
        ensures
            Self::decoding_part_2(data, at) == Ok::<
                ((u8, u8, u8, u8, u8, u16, u16, u16), nat),
                ConversionError,
            >(
                (
                    (
                        value.required_intelligence,
                        value.dexterity,
                        value.required_dexterity,
                        value.luck,
                        value.required_luck,
                        value.left_attack,
                        value.rigth_attack,
                        value.rigth_magic_attack,
                    ),
                    Self::encoding_part_2(value).len(),
                ),
            ),
    {
        reveal(InitialStatusPacket::decoding_part_2);
        reveal(InitialStatusPacket::encoding_part_2);
        let piece_0 = u8::encoding(value.required_intelligence, None);
        let piece_1 = u8::encoding(value.dexterity, None);
        let piece_2 = u8::encoding(value.required_dexterity, None);
        let piece_3 = u8::encoding(value.luck, None);
        let piece_4 = u8::encoding(value.required_luck, None);
        let piece_5 = u16::encoding(value.left_attack, None);
        let piece_6 = u16::encoding(value.rigth_attack, None);
        let piece_7 = u16::encoding(value.rigth_magic_attack, None);
        let front_1 = piece_0;
        let front_2 = front_1 + piece_1;
        let front_3 = front_2 + piece_2;
        let front_4 = front_3 + piece_3;
        let front_5 = front_4 + piece_4;
        let front_6 = front_5 + piece_5;
        let front_7 = front_6 + piece_6;
        lemma_holds_at_split(data, at, front_7, piece_7);
        lemma_holds_at_split(data, at, front_6, piece_6);
        lemma_holds_at_split(data, at, front_5, piece_5);
        lemma_holds_at_split(data, at, front_4, piece_4);
        lemma_holds_at_split(data, at, front_3, piece_3);
        lemma_holds_at_split(data, at, front_2, piece_2);
        lemma_holds_at_split(data, at, front_1, piece_1);
        u8::lemma_round_trip(value.required_intelligence, None, data, at);
        u8::lemma_round_trip(value.dexterity, None, data, at + front_1.len());
        u8::lemma_round_trip(value.required_dexterity, None, data, at + front_2.len());
        u8::lemma_round_trip(value.luck, None, data, at + front_3.len());
        u8::lemma_round_trip(value.required_luck, None, data, at + front_4.len());
        u16::lemma_round_trip(value.left_attack, None, data, at + front_5.len());
        u16::lemma_round_trip(value.rigth_attack, None, data, at + front_6.len());
        u16::lemma_round_trip(value.rigth_magic_attack, None, data, at + front_7.len());
    }

    proof fn lemma_size_part_2(data: Seq<u8>, at: int, value: InitialStatusPacket)
        ensures
            Self::decoding_part_2(data, at) matches Ok((_, length)) ==> length == 11,
            Self::encoding_part_2(value).len() == 11,
    {
        reveal(InitialStatusPacket::decoding_part_2);
        reveal(InitialStatusPacket::encoding_part_2);
        u8::lemma_fixed_size(data, at, value.required_intelligence);
        u8::lemma_fixed_size(data, at + 1, value.dexterity);
        u8::lemma_fixed_size(data, at + 2, value.required_dexterity);
        u8::lemma_fixed_size(data, at + 3, value.luck);
        u8::lemma_fixed_size(data, at + 4, value.required_luck);
        u16::lemma_fixed_size(data, at + 5, value.left_attack);
        u16::lemma_fixed_size(data, at + 7, value.rigth_attack);
        u16::lemma_fixed_size(data, at + 9, value.rigth_magic_attack);
    }

    /// What the fields from `left_magic_attack` to `flee2` decode to.
    #[verifier::opaque]
    pub open spec fn decoding_part_3(data: Seq<u8>, at: int) -> Result<
        ((u16, u16, u16, u16, u16, u16, u16, u16), nat),
        ConversionError,
    > {
        let left_magic_attack = u16::decoding(data, at, None);
        let at_left_defense = behind(at, left_magic_attack);
        let left_defense = u16::decoding(data, at_left_defense, None);
        let at_rigth_defense = behind(at_left_defense, left_defense);
        let rigth_defense = u16::decoding(data, at_rigth_defense, None);
        let at_rigth_magic_defense = behind(at_rigth_defense, rigth_defense);
        let rigth_magic_defense = u16::decoding(data, at_rigth_magic_defense, None);
        let at_left_magic_defense = behind(at_rigth_magic_defense, rigth_magic_defense);
        let left_magic_defense = u16::decoding(data, at_left_magic_defense, None);
        let at_hit = behind(at_left_magic_defense, left_magic_defense);
        let hit = u16::decoding(data, at_hit, None);
        let at_flee = behind(at_hit, hit);
        let flee = u16::decoding(data, at_flee, None);
        let at_flee2 = behind(at_flee, flee);
        let flee2 = u16::decoding(data, at_flee2, None);
        let behind_all = behind(at_flee2, flee2);
        if left_magic_attack is Err {
            Err(left_magic_attack->Err_0)
        } else if left_defense is Err {
            Err(left_defense->Err_0)
        } else if rigth_defense is Err {
            Err(rigth_defense->Err_0)
        } else if rigth_magic_defense is Err {
            Err(rigth_magic_defense->Err_0)
        } else if left_magic_defense is Err {
            Err(left_magic_defense->Err_0)
        } else if hit is Err {
            Err(hit->Err_0)
        } else if flee is Err {
            Err(flee->Err_0)
        } else if flee2 is Err {
            Err(flee2->Err_0)
        } else {
            Ok(
                (
                    (
                        left_magic_attack->Ok_0.0,
                        left_defense->Ok_0.0,
                        rigth_defense->Ok_0.0,
                        rigth_magic_defense->Ok_0.0,
                        left_magic_defense->Ok_0.0,
                        hit->Ok_0.0,
                        flee->Ok_0.0,
                        flee2->Ok_0.0,
                    ),
                    (behind_all - at) as nat,
                ),
            )
        }
    }

    /// The wire form of the fields from `left_magic_attack` to `flee2`.
    #[verifier::opaque]
    pub open spec fn encoding_part_3(value: InitialStatusPacket) -> Seq<u8> {
        u16::encoding(value.left_magic_attack, None)
            + u16::encoding(value.left_defense, None)
            + u16::encoding(value.rigth_defense, None)
            + u16::encoding(value.rigth_magic_defense, None)
            + u16::encoding(value.left_magic_defense, None)
            + u16::encoding(value.hit, None)
            + u16::encoding(value.flee, None)
            + u16::encoding(value.flee2, None)
    }

    fn decode_part_3(byte_stream: &mut ByteStream) -> (result: Result<
        (u16, u16, u16, u16, u16, u16, u16, u16),
        ConversionError,
    >)
        ensures
            final(byte_stream).data() == old(byte_stream).data(),
            final(byte_stream).version() == old(byte_stream).version(),
            match Self::decoding_part_3(old(byte_stream).data(), old(byte_stream).offset() as int) {
                Ok((value, length)) => {
                    &&& result is Ok
                    &&& result->Ok_0.0.model() == value.0
                    &&& result->Ok_0.1.model() == value.1
                    &&& result->Ok_0.2.model() == value.2
                    &&& result->Ok_0.3.model() == value.3
                    &&& result->Ok_0.4.model() == value.4
                    &&& result->Ok_0.5.model() == value.5
                    &&& result->Ok_0.6.model() == value.6
                    &&& result->Ok_0.7.model() == value.7
                    &&& final(byte_stream).offset() == old(byte_stream).offset() + length
                },
                Err(error) => {
                    &&& result is Err
                    &&& result->Err_0 == error
                    &&& final(byte_stream).offset() == old(byte_stream).offset()
                },
            },
    {
        proof {
            reveal(InitialStatusPacket::decoding_part_3);
        }
        let mut cursor = byte_stream.fork();
        let left_magic_attack = u16::from_bytes(&mut cursor, None)?;
        let left_defense = u16::from_bytes(&mut cursor, None)?;
        let rigth_defense = u16::from_bytes(&mut cursor, None)?;
        let rigth_magic_defense = u16::from_bytes(&mut cursor, None)?;
        let left_magic_defense = u16::from_bytes(&mut cursor, None)?;
        let hit = u16::from_bytes(&mut cursor, None)?;
        let flee = u16::from_bytes(&mut cursor, None)?;
        let flee2 = u16::from_bytes(&mut cursor, None)?;
        byte_stream.follow(&cursor);
        Ok((
            left_magic_attack,
            left_defense,
            rigth_defense,
            rigth_magic_defense,
            left_magic_defense,
            hit,
            flee,
            flee2,
        ))
    }

    fn encode_part_3(&self) -> (bytes: Vec<u8>)
        ensures
            bytes@ == Self::encoding_part_3(self.model()),
    {
        proof {
            reveal(InitialStatusPacket::encoding_part_3);
        }
        let mut bytes = self.left_magic_attack.to_bytes(None);
        let mut piece = self.left_defense.to_bytes(None);
        bytes.append(&mut piece);
        let mut piece = self.rigth_defense.to_bytes(None);
        bytes.append(&mut piece);
        let mut piece = self.rigth_magic_defense.to_bytes(None);
        bytes.append(&mut piece);
        let mut piece = self.left_magic_defense.to_bytes(None);
        bytes.append(&mut piece);
        let mut piece = self.hit.to_bytes(None);
        bytes.append(&mut piece);
        let mut piece = self.flee.to_bytes(None);
        bytes.append(&mut piece);
        let mut piece = self.flee2.to_bytes(None);
        bytes.append(&mut piece);
        bytes
    }

    #[verifier::rlimit(50)]
    proof fn lemma_round_trip_part_3(value: InitialStatusPacket, data: Seq<u8>, at: int)
        requires
            holds_at(data, at, Self::encoding_part_3(value)),
        ensures
            Self::decoding_part_3(data, at) == Ok::<
                ((u16, u16, u16, u16, u16, u16, u16, u16), nat),
                ConversionError,
            >(
                (
                    (
                        value.left_magic_attack,
                        value.left_defense,
                        value.rigth_defense,
                        value.rigth_magic_defense,
                        value.left_magic_defense,
                        value.hit,
                        value.flee,
                        value.flee2,
                    ),
                    Self::encoding_part_3(value).len(),
                ),
            ),
    {
        reveal(InitialStatusPacket::decoding_part_3);
        reveal(InitialStatusPacket::encoding_part_3);
        let piece_0 = u16::encoding(value.left_magic_attack, None);
        let piece_1 = u16::encoding(value.left_defense, None);
        let piece_2 = u16::encoding(value.rigth_defense, None);
        let piece_3 = u16::encoding(value.rigth_magic_defense, None);
        let piece_4 = u16::encoding(value.left_magic_defense, None);
        let piece_5 = u16::encoding(value.hit, None);
        let piece_6 = u16::encoding(value.flee, None);
        let piece_7 = u16::encoding(value.flee2, None);
        let front_1 = piece_0;
        let front_2 = front_1 + piece_1;
        let front_3 = front_2 + piece_2;
        let front_4 = front_3 + piece_3;
        let front_5 = front_4 + piece_4;
        let front_6 = front_5 + piece_5;
        let front_7 = front_6 + piece_6;
        lemma_holds_at_split(data, at, front_7, piece_7);
        lemma_holds_at_split(data, at, front_6, piece_6);
        lemma_holds_at_split(data, at, front_5, piece_5);
        lemma_holds_at_split(data, at, front_4, piece_4);
        lemma_holds_at_split(data, at, front_3, piece_3);
        lemma_holds_at_split(data, at, front_2, piece_2);
        lemma_holds_at_split(data, at, front_1, piece_1);
        u16::lemma_round_trip(value.left_magic_attack, None, data, at);
        u16::lemma_round_trip(value.left_defense, None, data, at + front_1.len());
        u16::lemma_round_trip(value.rigth_defense, None, data, at + front_2.len());
        u16::lemma_round_trip(value.rigth_magic_defense, None, data, at + front_3.len());
        u16::lemma_round_trip(value.left_magic_defense, None, data, at + front_4.len());
        u16::lemma_round_trip(value.hit, None, data, at + front_5.len());
        u16::lemma_round_trip(value.flee, None, data, at + front_6.len());
        u16::lemma_round_trip(value.flee2, None, data, at + front_7.len());
    }

    proof fn lemma_size_part_3(data: Seq<u8>, at: int, value: InitialStatusPacket)
        ensures
            Self::decoding_part_3(data, at) matches Ok((_, length)) ==> length == 16,
            Self::encoding_part_3(value).len() == 16,
    {
        reveal(InitialStatusPacket::decoding_part_3);
        reveal(InitialStatusPacket::encoding_part_3);
        u16::lemma_fixed_size(data, at, value.left_magic_attack);
        u16::lemma_fixed_size(data, at + 2, value.left_defense);
        u16::lemma_fixed_size(data, at + 4, value.rigth_defense);
        u16::lemma_fixed_size(data, at + 6, value.rigth_magic_defense);
        u16::lemma_fixed_size(data, at + 8, value.left_magic_defense);
        u16::lemma_fixed_size(data, at + 10, value.hit);
        u16::lemma_fixed_size(data, at + 12, value.flee);
        u16::lemma_fixed_size(data, at + 14, value.flee2);
    }

    /// What the fields from `crit` to `bonus_attack_speed` decode to.
    #[verifier::opaque]
    pub open spec fn decoding_part_4(data: Seq<u8>, at: int) -> Result<
        ((u16, u16, u16), nat),
        ConversionError,
    > {
        let crit = u16::decoding(data, at, None);
        let at_attack_speed = behind(at, crit);
        let attack_speed = u16::decoding(data, at_attack_speed, None);
        let at_bonus_attack_speed = behind(at_attack_speed, attack_speed);
        let bonus_attack_speed = u16::decoding(data, at_bonus_attack_speed, None);
        let behind_all = behind(at_bonus_attack_speed, bonus_attack_speed);
        if crit is Err {
            Err(crit->Err_0)
        } else if attack_speed is Err {
            Err(attack_speed->Err_0)
        } else if bonus_attack_speed is Err {
            Err(bonus_attack_speed->Err_0)
        } else {
            Ok(
                (
                    (
                        crit->Ok_0.0,
                        attack_speed->Ok_0.0,
                        bonus_attack_speed->Ok_0.0,
                    ),
                    (behind_all - at) as nat,
                ),
            )
        }
    }

    /// The wire form of the fields from `crit` to `bonus_attack_speed`.
    #[verifier::opaque]
    pub open spec fn encoding_part_4(value: InitialStatusPacket) -> Seq<u8> {
        u16::encoding(value.crit, None)
            + u16::encoding(value.attack_speed, None)
            + u16::encoding(value.bonus_attack_speed, None)
    }

    fn decode_part_4(byte_stream: &mut ByteStream) -> (result: Result<
        (u16, u16, u16),
        ConversionError,
    >)
        ensures
            final(byte_stream).data() == old(byte_stream).data(),
            final(byte_stream).version() == old(byte_stream).version(),
            match Self::decoding_part_4(old(byte_stream).data(), old(byte_stream).offset() as int) {
                Ok((value, length)) => {
                    &&& result is Ok
                    &&& result->Ok_0.0.model() == value.0
                    &&& result->Ok_0.1.model() == value.1
                    &&& result->Ok_0.2.model() == value.2
                    &&& final(byte_stream).offset() == old(byte_stream).offset() + length
                },
                Err(error) => {
                    &&& result is Err
                    &&& result->Err_0 == error
                    &&& final(byte_stream).offset() == old(byte_stream).offset()
                },
            },
    {
        proof {
            reveal(InitialStatusPacket::decoding_part_4);
        }
        let mut cursor = byte_stream.fork();
        let crit = u16::from_bytes(&mut cursor, None)?;
        let attack_speed = u16::from_bytes(&mut cursor, None)?;
        let bonus_attack_speed = u16::from_bytes(&mut cursor, None)?;
        byte_stream.follow(&cursor);
        Ok((crit, attack_speed, bonus_attack_speed))
    }

    fn encode_part_4(&self) -> (bytes: Vec<u8>)
        ensures
            bytes@ == Self::encoding_part_4(self.model()),
    {
        proof {
            reveal(InitialStatusPacket::encoding_part_4);
        }
        let mut bytes = self.crit.to_bytes(None);
        let mut piece = self.attack_speed.to_bytes(None);
        bytes.append(&mut piece);
        let mut piece = self.bonus_attack_speed.to_bytes(None);
        bytes.append(&mut piece);
        bytes
    }

    #[verifier::rlimit(50)]
    proof fn lemma_round_trip_part_4(value: InitialStatusPacket, data: Seq<u8>, at: int)
        requires
            holds_at(data, at, Self::encoding_part_4(value)),
        ensures
            Self::decoding_part_4(data, at) == Ok::<((u16, u16, u16), nat), ConversionError>(
                (
                    (
                        value.crit,
                        value.attack_speed,
                        value.bonus_attack_speed,
                    ),
                    Self::encoding_part_4(value).len(),
                ),
            ),
    {
        reveal(InitialStatusPacket::decoding_part_4);
        reveal(InitialStatusPacket::encoding_part_4);
        let piece_0 = u16::encoding(value.crit, None);
        let piece_1 = u16::encoding(value.attack_speed, None);
        let piece_2 = u16::encoding(value.bonus_attack_speed, None);
        let front_1 = piece_0;
        let front_2 = front_1 + piece_1;
        lemma_holds_at_split(data, at, front_2, piece_2);
        lemma_holds_at_split(data, at, front_1, piece_1);
        u16::lemma_round_trip(value.crit, None, data, at);
        u16::lemma_round_trip(value.attack_speed, None, data, at + front_1.len());
        u16::lemma_round_trip(value.bonus_attack_speed, None, data, at + front_2.len());
    }

    proof fn lemma_size_part_4(data: Seq<u8>, at: int, value: InitialStatusPacket)
        ensures
            Self::decoding_part_4(data, at) matches Ok((_, length)) ==> length == 6,
            Self::encoding_part_4(value).len() == 6,
    {
        reveal(InitialStatusPacket::decoding_part_4);
        reveal(InitialStatusPacket::encoding_part_4);
        u16::lemma_fixed_size(data, at, value.crit);
        u16::lemma_fixed_size(data, at + 2, value.attack_speed);
        u16::lemma_fixed_size(data, at + 4, value.bonus_attack_speed);
    }
}

impl Packet for InitialStatusPacket {
    type Model = InitialStatusPacket;

    const PACKET_NAME: &'static str = "InitialStatusPacket";

    const IS_PING: bool = false;

    open spec fn model(&self) -> InitialStatusPacket {
        *self
    }

    open spec fn packet_header() -> u16 {
        0x00bd
    }

    #[verifier::opaque]
    open spec fn payload_decoding(data: Seq<u8>, at: int) -> Result<
        (InitialStatusPacket, nat),
        ConversionError,
    > {
        let part_1 = Self::decoding_part_1(data, at);
        let at_part_2 = behind(at, part_1);
        let part_2 = Self::decoding_part_2(data, at_part_2);
        let at_part_3 = behind(at_part_2, part_2);
        let part_3 = Self::decoding_part_3(data, at_part_3);
        let at_part_4 = behind(at_part_3, part_3);
        let part_4 = Self::decoding_part_4(data, at_part_4);
        let behind_all = behind(at_part_4, part_4);
        if part_1 is Err {
            Err(part_1->Err_0)
        } else if part_2 is Err {
            Err(part_2->Err_0)
        } else if part_3 is Err {
            Err(part_3->Err_0)
        } else if part_4 is Err {
            Err(part_4->Err_0)
        } else {
            Ok(
                (
                    InitialStatusPacket {
                        status_points: part_1->Ok_0.0.0,
                        strength: part_1->Ok_0.0.1,
                        required_strength: part_1->Ok_0.0.2,
                        agility: part_1->Ok_0.0.3,
                        required_agility: part_1->Ok_0.0.4,
                        vitatity: part_1->Ok_0.0.5,
                        required_vitatity: part_1->Ok_0.0.6,
                        intelligence: part_1->Ok_0.0.7,
                        required_intelligence: part_2->Ok_0.0.0,
                        dexterity: part_2->Ok_0.0.1,
                        required_dexterity: part_2->Ok_0.0.2,
                        luck: part_2->Ok_0.0.3,
                        required_luck: part_2->Ok_0.0.4,
                        left_attack: part_2->Ok_0.0.5,
                        rigth_attack: part_2->Ok_0.0.6,
                        rigth_magic_attack: part_2->Ok_0.0.7,
                        left_magic_attack: part_3->Ok_0.0.0,
                        left_defense: part_3->Ok_0.0.1,
                        rigth_defense: part_3->Ok_0.0.2,
                        rigth_magic_defense: part_3->Ok_0.0.3,
                        left_magic_defense: part_3->Ok_0.0.4,
                        hit: part_3->Ok_0.0.5,
                        flee: part_3->Ok_0.0.6,
                        flee2: part_3->Ok_0.0.7,
                        crit: part_4->Ok_0.0.0,
                        attack_speed: part_4->Ok_0.0.1,
                        bonus_attack_speed: part_4->Ok_0.0.2,
                    },
                    (behind_all - at) as nat,
                ),
            )
        }
    }

    open spec fn encodable(value: InitialStatusPacket) -> bool {
        true
    }

    #[verifier::opaque]
    open spec fn payload_encoding(value: InitialStatusPacket) -> Seq<u8> {
        Self::encoding_part_1(value)
            + Self::encoding_part_2(value)
            + Self::encoding_part_3(value)
            + Self::encoding_part_4(value)
    }

    fn header() -> (header: u16) {
        0x00bd
    }

    fn payload_from_bytes(byte_stream: &mut ByteStream) -> (result: Result<
        Self,
        ConversionError,
    >) {
        proof {
            reveal(<InitialStatusPacket as Packet>::payload_decoding);
        }
        let mut cursor = byte_stream.fork();
        let (
            status_points,
            strength,
            required_strength,
            agility,
            required_agility,
            vitatity,
            required_vitatity,
            intelligence,
        ) = Self::decode_part_1(
            &mut cursor,
        )?;
        let (
            required_intelligence,
            dexterity,
            required_dexterity,
            luck,
            required_luck,
            left_attack,
            rigth_attack,
            rigth_magic_attack,
        ) = Self::decode_part_2(
            &mut cursor,
        )?;
        let (
            left_magic_attack,
            left_defense,
            rigth_defense,
            rigth_magic_defense,
            left_magic_defense,
            hit,
            flee,
            flee2,
        ) = Self::decode_part_3(
            &mut cursor,
        )?;
        let (crit, attack_speed, bonus_attack_speed) = Self::decode_part_4(&mut cursor)?;
        byte_stream.follow(&cursor);
        Ok(InitialStatusPacket {
            status_points,
            strength,
            required_strength,
            agility,
            required_agility,
            vitatity,
            required_vitatity,
            intelligence,
            required_intelligence,
            dexterity,
            required_dexterity,
            luck,
            required_luck,
            left_attack,
            rigth_attack,
            rigth_magic_attack,
            left_magic_attack,
            left_defense,
            rigth_defense,
            rigth_magic_defense,
            left_magic_defense,
            hit,
            flee,
            flee2,
            crit,
            attack_speed,
            bonus_attack_speed,
        })
    }

    fn payload_to_bytes(&self) -> (bytes: Vec<u8>) {
        proof {
            reveal(<InitialStatusPacket as Packet>::payload_encoding);
        }
        let mut bytes = self.encode_part_1();
        let mut piece = self.encode_part_2();
        bytes.append(&mut piece);
        let mut piece = self.encode_part_3();
        bytes.append(&mut piece);
        let mut piece = self.encode_part_4();
        bytes.append(&mut piece);
        bytes
    }

    proof fn lemma_payload_round_trip(value: InitialStatusPacket, data: Seq<u8>, at: int) {
        reveal(<InitialStatusPacket as Packet>::payload_decoding);
        reveal(<InitialStatusPacket as Packet>::payload_encoding);
        let piece_0 = Self::encoding_part_1(value);
        let piece_1 = Self::encoding_part_2(value);
        let piece_2 = Self::encoding_part_3(value);
        let piece_3 = Self::encoding_part_4(value);
        let front_1 = piece_0;
        let front_2 = front_1 + piece_1;
        let front_3 = front_2 + piece_2;
        lemma_holds_at_split(data, at, front_3, piece_3);
        lemma_holds_at_split(data, at, front_2, piece_2);
        lemma_holds_at_split(data, at, front_1, piece_1);
        Self::lemma_round_trip_part_1(value, data, at);
        Self::lemma_round_trip_part_2(value, data, at + front_1.len());
        Self::lemma_round_trip_part_3(value, data, at + front_2.len());
        Self::lemma_round_trip_part_4(value, data, at + front_3.len());
    }
}

#[derive(Clone, Copy, Debug)]
pub struct UpdateAttackRangePacket {
    pub attack_range: u16,
}

impl Packet for UpdateAttackRangePacket {
    type Model = UpdateAttackRangePacket;

    const PACKET_NAME: &'static str = "UpdateAttackRangePacket";

    const IS_PING: bool = false;

    open spec fn model(&self) -> UpdateAttackRangePacket {
        *self
    }

    open spec fn packet_header() -> u16 {
        0x013a
    }

    #[verifier::opaque]
    open spec fn payload_decoding(data: Seq<u8>, at: int) -> Result<
        (UpdateAttackRangePacket, nat),
        ConversionError,
    > {
        let attack_range = u16::decoding(data, at, None);
        let behind_all = behind(at, attack_range);
        if attack_range is Err {
            Err(attack_range->Err_0)
        } else {
            Ok(
                (
                    UpdateAttackRangePacket {
                        attack_range: attack_range->Ok_0.0,
                    },
                    (behind_all - at) as nat,
                ),
            )
        }
    }

    open spec fn encodable(value: UpdateAttackRangePacket) -> bool {
        true
    }

    #[verifier::opaque]
    open spec fn payload_encoding(value: UpdateAttackRangePacket) -> Seq<u8> {
        u16::encoding(value.attack_range, None)
    }

    fn header() -> (header: u16) {
        0x013a
    }

    fn payload_from_bytes(byte_stream: &mut ByteStream) -> (result: Result<
        Self,
        ConversionError,
    >) {
        proof {
            reveal(<UpdateAttackRangePacket as Packet>::payload_decoding);
        }
        let mut cursor = byte_stream.fork();
        let attack_range = u16::from_bytes(&mut cursor, None)?;
        byte_stream.follow(&cursor);
        Ok(UpdateAttackRangePacket { attack_range })
    }

    fn payload_to_bytes(&self) -> (bytes: Vec<u8>) {
        proof {
            reveal(<UpdateAttackRangePacket as Packet>::payload_encoding);
        }
        let bytes = self.attack_range.to_bytes(None);
        bytes
    }

    proof fn lemma_payload_round_trip(value: UpdateAttackRangePacket, data: Seq<u8>, at: int) {
        reveal(<UpdateAttackRangePacket as Packet>::payload_decoding);
        reveal(<UpdateAttackRangePacket as Packet>::payload_encoding);
        let piece_0 = u16::encoding(value.attack_range, None);
        u16::lemma_round_trip(value.attack_range, None, data, at);
    }
}

#[derive(Clone, Copy, Debug)]
pub struct StatusChangePacket {
    pub index: u16,
    pub entity_id: EntityId,
    pub state: u8,
    pub duration_in_milliseconds: u32,
    pub remaining_in_milliseconds: u32,
    pub value: [u32; 3],
}

impl Packet for StatusChangePacket {
    type Model = StatusChangePacket;

    const PACKET_NAME: &'static str = "StatusChangePacket";

    const IS_PING: bool = false;

    open spec fn model(&self) -> StatusChangePacket {
        *self
    }

    open spec fn packet_header() -> u16 {
        0x0983
    }

    #[verifier::opaque]
    open spec fn payload_decoding(data: Seq<u8>, at: int) -> Result<
        (StatusChangePacket, nat),
        ConversionError,
    > {
        let index = u16::decoding(data, at, None);
        let at_entity_id = behind(at, index);
        let entity_id = EntityId::decoding(data, at_entity_id, None);
        let at_state = behind(at_entity_id, entity_id);
        let state = u8::decoding(data, at_state, None);
        let at_duration_in_milliseconds = behind(at_state, state);
        let duration_in_milliseconds = u32::decoding(data, at_duration_in_milliseconds, None);
        let at_remaining_in_milliseconds = behind(
            at_duration_in_milliseconds,
            duration_in_milliseconds,
        );
        let remaining_in_milliseconds = u32::decoding(data, at_remaining_in_milliseconds, None);
        let at_value_field = behind(at_remaining_in_milliseconds, remaining_in_milliseconds);
        let value_field = <[u32; 3]>::decoding(data, at_value_field, None);
        let behind_all = behind(at_value_field, value_field);
        if index is Err {
            Err(index->Err_0)
        } else if entity_id is Err {
            Err(entity_id->Err_0)
        } else if state is Err {
            Err(state->Err_0)
        } else if duration_in_milliseconds is Err {
            Err(duration_in_milliseconds->Err_0)
        } else if remaining_in_milliseconds is Err {
            Err(remaining_in_milliseconds->Err_0)
        } else if value_field is Err {
            Err(value_field->Err_0)
        } else {
            Ok(
                (
                    StatusChangePacket {
                        index: index->Ok_0.0,
                        entity_id: entity_id->Ok_0.0,
                        state: state->Ok_0.0,
                        duration_in_milliseconds: duration_in_milliseconds->Ok_0.0,
                        remaining_in_milliseconds: remaining_in_milliseconds->Ok_0.0,
                        value: value_field->Ok_0.0,
                    },
                    (behind_all - at) as nat,
                ),
            )
        }
    }

    open spec fn encodable(value: StatusChangePacket) -> bool {
        true
    }

    #[verifier::opaque]
    open spec fn payload_encoding(value: StatusChangePacket) -> Seq<u8> {
        u16::encoding(value.index, None)
            + EntityId::encoding(value.entity_id, None)
            + u8::encoding(value.state, None)
            + u32::encoding(value.duration_in_milliseconds, None)
            + u32::encoding(value.remaining_in_milliseconds, None)
            + <[u32; 3]>::encoding(value.value, None)
    }

    fn header() -> (header: u16) {
        0x0983
    }

    fn payload_from_bytes(byte_stream: &mut ByteStream) -> (result: Result<
        Self,
        ConversionError,
    >) {
        proof {
            reveal(<StatusChangePacket as Packet>::payload_decoding);
        }
        let mut cursor = byte_stream.fork();
        let index = u16::from_bytes(&mut cursor, None)?;
        let entity_id = EntityId::from_bytes(&mut cursor, None)?;
        let state = u8::from_bytes(&mut cursor, None)?;
        let duration_in_milliseconds = u32::from_bytes(&mut cursor, None)?;
        let remaining_in_milliseconds = u32::from_bytes(&mut cursor, None)?;
        let value_field = <[u32; 3]>::from_bytes(&mut cursor, None)?;
        byte_stream.follow(&cursor);
        Ok(StatusChangePacket {
            index,
            entity_id,
            state,
            duration_in_milliseconds,
            remaining_in_milliseconds,
            value: value_field,
        })
    }

    fn payload_to_bytes(&self) -> (bytes: Vec<u8>) {
        proof {
            reveal(<StatusChangePacket as Packet>::payload_encoding);
        }
        let mut bytes = self.index.to_bytes(None);
        let mut piece = self.entity_id.to_bytes(None);
        bytes.append(&mut piece);
        let mut piece = self.state.to_bytes(None);
        bytes.append(&mut piece);
        let mut piece = self.duration_in_milliseconds.to_bytes(None);
        bytes.append(&mut piece);
        let mut piece = self.remaining_in_milliseconds.to_bytes(None);
        bytes.append(&mut piece);
        let mut piece = self.value.to_bytes(None);
        bytes.append(&mut piece);
        bytes
    }

    proof fn lemma_payload_round_trip(value: StatusChangePacket, data: Seq<u8>, at: int) {
        reveal(<StatusChangePacket as Packet>::payload_decoding);
        reveal(<StatusChangePacket as Packet>::payload_encoding);
        let piece_0 = u16::encoding(value.index, None);
        let piece_1 = EntityId::encoding(value.entity_id, None);
        let piece_2 = u8::encoding(value.state, None);
        let piece_3 = u32::encoding(value.duration_in_milliseconds, None);
        let piece_4 = u32::encoding(value.remaining_in_milliseconds, None);
        let piece_5 = <[u32; 3]>::encoding(value.value, None);
        let front_1 = piece_0;
        let front_2 = front_1 + piece_1;
        let front_3 = front_2 + piece_2;
        let front_4 = front_3 + piece_3;
        let front_5 = front_4 + piece_4;
        lemma_holds_at_split(data, at, front_5, piece_5);
        lemma_holds_at_split(data, at, front_4, piece_4);
        lemma_holds_at_split(data, at, front_3, piece_3);
        lemma_holds_at_split(data, at, front_2, piece_2);
        lemma_holds_at_split(data, at, front_1, piece_1);
        u16::lemma_round_trip(value.index, None, data, at);
        EntityId::lemma_round_trip(value.entity_id, None, data, at + front_1.len());
        u8::lemma_round_trip(value.state, None, data, at + front_2.len());
        u32::lemma_round_trip(value.duration_in_milliseconds, None, data, at + front_3.len());
        u32::lemma_round_trip(value.remaining_in_milliseconds, None, data, at + front_4.len());
        <[u32; 3]>::lemma_round_trip(value.value, None, data, at + front_5.len());
    }
}

#[derive(Clone, Copy, Debug)]
pub struct CriticalWeightUpdatePacket {
    pub packet_length: u32,
}

impl Packet for CriticalWeightUpdatePacket {
    type Model = CriticalWeightUpdatePacket;

    const PACKET_NAME: &'static str = "CriticalWeightUpdatePacket";

    const IS_PING: bool = false;

    open spec fn model(&self) -> CriticalWeightUpdatePacket {
        *self
    }

    open spec fn packet_header() -> u16 {
        0x0ade
    }

    #[verifier::opaque]
    open spec fn payload_decoding(data: Seq<u8>, at: int) -> Result<
        (CriticalWeightUpdatePacket, nat),
        ConversionError,
    > {
        let packet_length = u32::decoding(data, at, None);
        let behind_all = behind(at, packet_length);
        if packet_length is Err {
            Err(packet_length->Err_0)
        } else {
            Ok(
                (
                    CriticalWeightUpdatePacket {
                        packet_length: packet_length->Ok_0.0,
                    },
                    (behind_all - at) as nat,
                ),
            )
        }
    }

    open spec fn encodable(value: CriticalWeightUpdatePacket) -> bool {
        true
    }

    #[verifier::opaque]
    open spec fn payload_encoding(value: CriticalWeightUpdatePacket) -> Seq<u8> {
        u32::encoding(value.packet_length, None)
    }

    fn header() -> (header: u16) {
        0x0ade
    }

    fn payload_from_bytes(byte_stream: &mut ByteStream) -> (result: Result<
        Self,
        ConversionError,
    >) {
        proof {
            reveal(<CriticalWeightUpdatePacket as Packet>::payload_decoding);
        }
        let mut cursor = byte_stream.fork();
        let packet_length = u32::from_bytes(&mut cursor, None)?;
        byte_stream.follow(&cursor);
        Ok(CriticalWeightUpdatePacket { packet_length })
    }

    fn payload_to_bytes(&self) -> (bytes: Vec<u8>) {
        proof {
            reveal(<CriticalWeightUpdatePacket as Packet>::payload_encoding);
        }
        let bytes = self.packet_length.to_bytes(None);
        bytes
    }

    proof fn lemma_payload_round_trip(value: CriticalWeightUpdatePacket, data: Seq<u8>, at: int) {
        reveal(<CriticalWeightUpdatePacket as Packet>::payload_decoding);
        reveal(<CriticalWeightUpdatePacket as Packet>::payload_encoding);
        let piece_0 = u32::encoding(value.packet_length, None);
        u32::lemma_round_trip(value.packet_length, None, data, at);
    }
}

#[derive(Clone, Copy, Debug)]
pub struct AchievementData {
    pub acheivement_id: u32,
    pub is_completed: u8,
    pub objectives: [u32; 10],
    pub completion_timestamp: u32,
    pub got_rewarded: u8,
}

impl ByteConvertable for AchievementData {
    type Model = AchievementData;

    open spec fn model(&self) -> AchievementData {
        *self
    }

    open spec fn accepts(length_hint: Option<usize>) -> bool {
        length_hint is None
    }

    #[verifier::opaque]
    open spec fn decoding(data: Seq<u8>, at: int, length_hint: Option<usize>) -> Result<
        (AchievementData, nat),
        ConversionError,
    > {
        let acheivement_id = u32::decoding(data, at, None);
        let at_is_completed = behind(at, acheivement_id);
        let is_completed = u8::decoding(data, at_is_completed, None);
        let at_objectives = behind(at_is_completed, is_completed);
        let objectives = <[u32; 10]>::decoding(data, at_objectives, None);
        let at_completion_timestamp = behind(at_objectives, objectives);
        let completion_timestamp = u32::decoding(data, at_completion_timestamp, None);
        let at_got_rewarded = behind(at_completion_timestamp, completion_timestamp);
        let got_rewarded = u8::decoding(data, at_got_rewarded, None);
        let behind_all = behind(at_got_rewarded, got_rewarded);
        if acheivement_id is Err {
            Err(acheivement_id->Err_0)
        } else if is_completed is Err {
            Err(is_completed->Err_0)
        } else if objectives is Err {
            Err(objectives->Err_0)
        } else if completion_timestamp is Err {
            Err(completion_timestamp->Err_0)
        } else if got_rewarded is Err {
            Err(got_rewarded->Err_0)
        } else {
            Ok(
                (
                    AchievementData {
                        acheivement_id: acheivement_id->Ok_0.0,
                        is_completed: is_completed->Ok_0.0,
                        objectives: objectives->Ok_0.0,
                        completion_timestamp: completion_timestamp->Ok_0.0,
                        got_rewarded: got_rewarded->Ok_0.0,
                    },
                    (behind_all - at) as nat,
                ),
            )
        }
    }

    open spec fn encodable(value: AchievementData, length_hint: Option<usize>) -> bool {
        true
    }

    #[verifier::opaque]
    open spec fn encoding(value: AchievementData, length_hint: Option<usize>) -> Seq<u8> {
        u32::encoding(value.acheivement_id, None)
            + u8::encoding(value.is_completed, None)
            + <[u32; 10]>::encoding(value.objectives, None)
            + u32::encoding(value.completion_timestamp, None)
            + u8::encoding(value.got_rewarded, None)
    }

    fn from_bytes(byte_stream: &mut ByteStream, length_hint: Option<usize>) -> (result: Result<
        Self,
        ConversionError,
    >) {
        proof {
            reveal(<AchievementData as ByteConvertable>::decoding);
        }
        let mut cursor = byte_stream.fork();
        let acheivement_id = u32::from_bytes(&mut cursor, None)?;
        let is_completed = u8::from_bytes(&mut cursor, None)?;
        let objectives = <[u32; 10]>::from_bytes(&mut cursor, None)?;
        let completion_timestamp = u32::from_bytes(&mut cursor, None)?;
        let got_rewarded = u8::from_bytes(&mut cursor, None)?;
        byte_stream.follow(&cursor);
        Ok(AchievementData {
            acheivement_id,
            is_completed,
            objectives,
            completion_timestamp,
            got_rewarded,
        })
    }

    fn to_bytes(&self, length_hint: Option<usize>) -> (bytes: Vec<u8>) {
        proof {
            reveal(<AchievementData as ByteConvertable>::encoding);
        }
        let mut bytes = self.acheivement_id.to_bytes(None);
        let mut piece = self.is_completed.to_bytes(None);
        bytes.append(&mut piece);
        let mut piece = self.objectives.to_bytes(None);
        bytes.append(&mut piece);
        let mut piece = self.completion_timestamp.to_bytes(None);
        bytes.append(&mut piece);
        let mut piece = self.got_rewarded.to_bytes(None);
        bytes.append(&mut piece);
        bytes
    }

    proof fn lemma_round_trip(
        value: AchievementData,
        length_hint: Option<usize>,
        data: Seq<u8>,
        at: int,
    ) {
        reveal(<AchievementData as ByteConvertable>::decoding);
        reveal(<AchievementData as ByteConvertable>::encoding);
        let piece_0 = u32::encoding(value.acheivement_id, None);
        let piece_1 = u8::encoding(value.is_completed, None);
        let piece_2 = <[u32; 10]>::encoding(value.objectives, None);
        let piece_3 = u32::encoding(value.completion_timestamp, None);
        let piece_4 = u8::encoding(value.got_rewarded, None);
        let front_1 = piece_0;
        let front_2 = front_1 + piece_1;
        let front_3 = front_2 + piece_2;
        let front_4 = front_3 + piece_3;
        lemma_holds_at_split(data, at, front_4, piece_4);
        lemma_holds_at_split(data, at, front_3, piece_3);
        lemma_holds_at_split(data, at, front_2, piece_2);
        lemma_holds_at_split(data, at, front_1, piece_1);
        u32::lemma_round_trip(value.acheivement_id, None, data, at);
        u8::lemma_round_trip(value.is_completed, None, data, at + front_1.len());
        <[u32; 10]>::lemma_round_trip(value.objectives, None, data, at + front_2.len());
        u32::lemma_round_trip(value.completion_timestamp, None, data, at + front_3.len());
        u8::lemma_round_trip(value.got_rewarded, None, data, at + front_4.len());
    }
}

#[derive(Clone, Copy, Debug)]
pub struct AchievementUpdatePacket {
    pub total_score: u32,
    pub level: u16,
    pub acheivement_experience: u32,
    pub acheivement_experience_to_next_level: u32,
    pub acheivement_data: AchievementData,
}

impl Packet for AchievementUpdatePacket {
    type Model = AchievementUpdatePacket;

    const PACKET_NAME: &'static str = "AchievementUpdatePacket";

    const IS_PING: bool = false;

    open spec fn model(&self) -> AchievementUpdatePacket {
        *self
    }

    open spec fn packet_header() -> u16 {
        0x0a24
    }

    #[verifier::opaque]
    open spec fn payload_decoding(data: Seq<u8>, at: int) -> Result<
        (AchievementUpdatePacket, nat),
        ConversionError,
    > {
        let total_score = u32::decoding(data, at, None);
        let at_level = behind(at, total_score);
        let level = u16::decoding(data, at_level, None);
        let at_acheivement_experience = behind(at_level, level);
        let acheivement_experience = u32::decoding(data, at_acheivement_experience, None);
        let at_acheivement_experience_to_next_level = behind(
            at_acheivement_experience,
            acheivement_experience,
        );
        let acheivement_experience_to_next_level = u32::decoding(
            data,
            at_acheivement_experience_to_next_level,
            None,
        );
        let at_acheivement_data = behind(
            at_acheivement_experience_to_next_level,
            acheivement_experience_to_next_level,
        );
        let acheivement_data = AchievementData::decoding(data, at_acheivement_data, None);
        let behind_all = behind(at_acheivement_data, acheivement_data);
        if total_score is Err {
            Err(total_score->Err_0)
        } else if level is Err {
            Err(level->Err_0)
        } else if acheivement_experience is Err {
            Err(acheivement_experience->Err_0)
        } else if acheivement_experience_to_next_level is Err {
            Err(acheivement_experience_to_next_level->Err_0)
        } else if acheivement_data is Err {
            Err(acheivement_data->Err_0)
        } else {
            Ok(
                (
                    AchievementUpdatePacket {
                        total_score: total_score->Ok_0.0,
                        level: level->Ok_0.0,
                        acheivement_experience: acheivement_experience->Ok_0.0,
                        acheivement_experience_to_next_level:
                            acheivement_experience_to_next_level->Ok_0.0,
                        acheivement_data: acheivement_data->Ok_0.0,
                    },
                    (behind_all - at) as nat,
                ),
            )
        }
    }

    open spec fn encodable(value: AchievementUpdatePacket) -> bool {
        true
    }

    #[verifier::opaque]
    open spec fn payload_encoding(value: AchievementUpdatePacket) -> Seq<u8> {
        u32::encoding(value.total_score, None)
            + u16::encoding(value.level, None)
            + u32::encoding(value.acheivement_experience, None)
            + u32::encoding(value.acheivement_experience_to_next_level, None)
            + AchievementData::encoding(value.acheivement_data, None)
    }

    fn header() -> (header: u16) {
        0x0a24
    }

    fn payload_from_bytes(byte_stream: &mut ByteStream) -> (result: Result<
        Self,
        ConversionError,
    >) {
        proof {
            reveal(<AchievementUpdatePacket as Packet>::payload_decoding);
        }
        let mut cursor = byte_stream.fork();
        let total_score = u32::from_bytes(&mut cursor, None)?;
        let level = u16::from_bytes(&mut cursor, None)?;
        let acheivement_experience = u32::from_bytes(&mut cursor, None)?;
        let acheivement_experience_to_next_level = u32::from_bytes(&mut cursor, None)?;
        let acheivement_data = AchievementData::from_bytes(&mut cursor, None)?;
        byte_stream.follow(&cursor);
        Ok(AchievementUpdatePacket {
            total_score,
            level,
            acheivement_experience,
            acheivement_experience_to_next_level,
            acheivement_data,
        })
    }

    fn payload_to_bytes(&self) -> (bytes: Vec<u8>) {
        proof {
            reveal(<AchievementUpdatePacket as Packet>::payload_encoding);
        }
        let mut bytes = self.total_score.to_bytes(None);
        let mut piece = self.level.to_bytes(None);
        bytes.append(&mut piece);
        let mut piece = self.acheivement_experience.to_bytes(None);
        bytes.append(&mut piece);
        let mut piece = self.acheivement_experience_to_next_level.to_bytes(None);
        bytes.append(&mut piece);
        let mut piece = self.acheivement_data.to_bytes(None);
        bytes.append(&mut piece);
        bytes
    }

    proof fn lemma_payload_round_trip(value: AchievementUpdatePacket, data: Seq<u8>, at: int) {
        reveal(<AchievementUpdatePacket as Packet>::payload_decoding);
        reveal(<AchievementUpdatePacket as Packet>::payload_encoding);
        let piece_0 = u32::encoding(value.total_score, None);
        let piece_1 = u16::encoding(value.level, None);
        let piece_2 = u32::encoding(value.acheivement_experience, None);
        let piece_3 = u32::encoding(value.acheivement_experience_to_next_level, None);
        let piece_4 = AchievementData::encoding(value.acheivement_data, None);
        let front_1 = piece_0;
        let front_2 = front_1 + piece_1;
        let front_3 = front_2 + piece_2;
        let front_4 = front_3 + piece_3;
        lemma_holds_at_split(data, at, front_4, piece_4);
        lemma_holds_at_split(data, at, front_3, piece_3);
        lemma_holds_at_split(data, at, front_2, piece_2);
        lemma_holds_at_split(data, at, front_1, piece_1);
        u32::lemma_round_trip(value.total_score, None, data, at);
        u16::lemma_round_trip(value.level, None, data, at + front_1.len());
        u32::lemma_round_trip(value.acheivement_experience, None, data, at + front_2.len());
        u32::lemma_round_trip(
            value.acheivement_experience_to_next_level,
            None,
            data,
            at + front_3.len(),
        );
        AchievementData::lemma_round_trip(value.acheivement_data, None, data, at + front_4.len());
    }
}

#[derive(Clone, Debug)]
pub struct AchievementListPacket {
    pub packet_length: u16,
    pub acheivement_count: u32,
    pub total_score: u32,
    pub level: u16,
    pub acheivement_experience: u32,
    pub acheivement_experience_to_next_level: u32,
    pub acheivement_data: Vec<AchievementData>,
}

/// What a [`AchievementListPacket`] stands for.
pub struct AchievementListPacketModel {
    pub packet_length: u16,
    pub acheivement_count: u32,
    pub total_score: u32,
    pub level: u16,
    pub acheivement_experience: u32,
    pub acheivement_experience_to_next_level: u32,
    pub acheivement_data: Seq<AchievementData>,
}

impl Packet for AchievementListPacket {
    type Model = AchievementListPacketModel;

    const PACKET_NAME: &'static str = "AchievementListPacket";

    const IS_PING: bool = false;

    open spec fn model(&self) -> AchievementListPacketModel {
        AchievementListPacketModel {
            packet_length: self.packet_length.model(),
            acheivement_count: self.acheivement_count.model(),
            total_score: self.total_score.model(),
            level: self.level.model(),
            acheivement_experience: self.acheivement_experience.model(),
            acheivement_experience_to_next_level: self.acheivement_experience_to_next_level.model(),
            acheivement_data: models(self.acheivement_data@),
        }
    }

    open spec fn packet_header() -> u16 {
        0x0a23
    }

    #[verifier::opaque]
    open spec fn payload_decoding(data: Seq<u8>, at: int) -> Result<
        (AchievementListPacketModel, nat),
        ConversionError,
    > {
        let packet_length = u16::decoding(data, at, None);
        let end = at - 2 + packet_length->Ok_0.0;
        let frame = data.take(end);
        let at_acheivement_count = behind(at, packet_length);
        let acheivement_count = u32::decoding(frame, at_acheivement_count, None);
        let at_total_score = behind(at_acheivement_count, acheivement_count);
        let total_score = u32::decoding(frame, at_total_score, None);
        let at_level = behind(at_total_score, total_score);
        let level = u16::decoding(frame, at_level, None);
        let at_acheivement_experience = behind(at_level, level);
        let acheivement_experience = u32::decoding(frame, at_acheivement_experience, None);
        let at_acheivement_experience_to_next_level = behind(
            at_acheivement_experience,
            acheivement_experience,
        );
        let acheivement_experience_to_next_level = u32::decoding(
            frame,
            at_acheivement_experience_to_next_level,
            None,
        );
        let at_acheivement_data = behind(
            at_acheivement_experience_to_next_level,
            acheivement_experience_to_next_level,
        );
        let acheivement_data = repeated_decoding::<AchievementData>(
            frame,
            at_acheivement_data,
            acheivement_count->Ok_0.0 as nat,
        );
        let behind_all = behind(at_acheivement_data, acheivement_data);
        if packet_length is Err {
            Err(packet_length->Err_0)
        } else if packet_length->Ok_0.0 < 4 {
            Err(ConversionError::Invalid)
        } else if end > data.len() {
            Err(ConversionError::Incomplete)
        } else if acheivement_count is Err
            || total_score is Err
            || level is Err
            || acheivement_experience is Err
            || acheivement_experience_to_next_level is Err
            || acheivement_data is Err
            || behind_all != end {
            Err(ConversionError::Invalid)
        } else {
            Ok(
                (
                    AchievementListPacketModel {
                        packet_length: packet_length->Ok_0.0,
                        acheivement_count: acheivement_count->Ok_0.0,
                        total_score: total_score->Ok_0.0,
                        level: level->Ok_0.0,
                        acheivement_experience: acheivement_experience->Ok_0.0,
                        acheivement_experience_to_next_level:
                            acheivement_experience_to_next_level->Ok_0.0,
                        acheivement_data: acheivement_data->Ok_0.0,
                    },
                    (behind_all - at) as nat,
                ),
            )
        }
    }

    open spec fn encodable(value: AchievementListPacketModel) -> bool {
        &&& all_encodable::<AchievementData>(value.acheivement_data)
        &&& value.acheivement_data.len() == value.acheivement_count
        &&& value.packet_length == 2 + Self::payload_encoding(value).len()
    }

    #[verifier::opaque]
    open spec fn payload_encoding(value: AchievementListPacketModel) -> Seq<u8> {
        u16::encoding(value.packet_length, None)
            + u32::encoding(value.acheivement_count, None)
            + u32::encoding(value.total_score, None)
            + u16::encoding(value.level, None)
            + u32::encoding(value.acheivement_experience, None)
            + u32::encoding(value.acheivement_experience_to_next_level, None)
            + repeated_encoding::<AchievementData>(value.acheivement_data)
    }

    fn header() -> (header: u16) {
        0x0a23
    }

    #[verifier::rlimit(40)]
    fn payload_from_bytes(byte_stream: &mut ByteStream) -> (result: Result<
        Self,
        ConversionError,
    >) {
        proof {
            reveal(<AchievementListPacket as Packet>::payload_decoding);
        }
        let mut cursor = byte_stream.fork();
        let packet_length = u16::from_bytes(&mut cursor, None)?;
        if packet_length < 4 {
            return Err(ConversionError::Invalid);
        }
        if cursor.remaining_length() < (packet_length - 4) as usize {
            return Err(ConversionError::Incomplete);
        }
        let end = cursor.get_offset() + (packet_length - 4) as usize;
        let mut frame = cursor.frame(end);
        let acheivement_count = match u32::from_bytes(&mut frame, None) {
            Ok(value) => value,
            Err(_) => return Err(ConversionError::Invalid),
        };
        let total_score = match u32::from_bytes(&mut frame, None) {
            Ok(value) => value,
            Err(_) => return Err(ConversionError::Invalid),
        };
        let level = match u16::from_bytes(&mut frame, None) {
            Ok(value) => value,
            Err(_) => return Err(ConversionError::Invalid),
        };
        let acheivement_experience = match u32::from_bytes(&mut frame, None) {
            Ok(value) => value,
            Err(_) => return Err(ConversionError::Invalid),
        };
        let acheivement_experience_to_next_level = match u32::from_bytes(&mut frame, None) {
            Ok(value) => value,
            Err(_) => return Err(ConversionError::Invalid),
        };
        let acheivement_data = match decode_repeated::<AchievementData>(
            &mut frame,
            acheivement_count as usize,
        ) {
            Ok(value) => value,
            Err(_) => return Err(ConversionError::Invalid),
        };
        if !frame.is_empty() {
            return Err(ConversionError::Invalid);
        }
        byte_stream.follow(&frame);
        Ok(AchievementListPacket {
            packet_length,
            acheivement_count,
            total_score,
            level,
            acheivement_experience,
            acheivement_experience_to_next_level,
            acheivement_data,
        })
    }

    fn payload_to_bytes(&self) -> (bytes: Vec<u8>) {
        proof {
            reveal(<AchievementListPacket as Packet>::payload_encoding);
        }
        let mut bytes = self.packet_length.to_bytes(None);
        let mut piece = self.acheivement_count.to_bytes(None);
        bytes.append(&mut piece);
        let mut piece = self.total_score.to_bytes(None);
        bytes.append(&mut piece);
        let mut piece = self.level.to_bytes(None);
        bytes.append(&mut piece);
        let mut piece = self.acheivement_experience.to_bytes(None);
        bytes.append(&mut piece);
        let mut piece = self.acheivement_experience_to_next_level.to_bytes(None);
        bytes.append(&mut piece);
        let mut piece = encode_repeated::<AchievementData>(&self.acheivement_data);
        bytes.append(&mut piece);
        bytes
    }

    #[verifier::rlimit(40)]
    proof fn lemma_payload_round_trip(value: AchievementListPacketModel, data: Seq<u8>, at: int) {
        reveal(<AchievementListPacket as Packet>::payload_decoding);
        reveal(<AchievementListPacket as Packet>::payload_encoding);
        let piece_0 = u16::encoding(value.packet_length, None);
        let piece_1 = u32::encoding(value.acheivement_count, None);
        let piece_2 = u32::encoding(value.total_score, None);
        let piece_3 = u16::encoding(value.level, None);
        let piece_4 = u32::encoding(value.acheivement_experience, None);
        let piece_5 = u32::encoding(value.acheivement_experience_to_next_level, None);
        let piece_6 = repeated_encoding::<AchievementData>(value.acheivement_data);
        let front_1 = piece_0;
        let front_2 = front_1 + piece_1;
        let front_3 = front_2 + piece_2;
        let front_4 = front_3 + piece_3;
        let front_5 = front_4 + piece_4;
        let front_6 = front_5 + piece_5;
        lemma_holds_at_split(data, at, front_6, piece_6);
        lemma_holds_at_split(data, at, front_5, piece_5);
        lemma_holds_at_split(data, at, front_4, piece_4);
        lemma_holds_at_split(data, at, front_3, piece_3);
        lemma_holds_at_split(data, at, front_2, piece_2);
        lemma_holds_at_split(data, at, front_1, piece_1);
        lemma_holds_at_bounds(data, at, Self::payload_encoding(value));
        let end = at - 2 + value.packet_length;
        let frame = data.take(end);
        u16::lemma_round_trip(value.packet_length, None, data, at);
        lemma_holds_at_take(data, end, at + front_1.len(), piece_1);
        u32::lemma_round_trip(value.acheivement_count, None, frame, at + front_1.len());
        lemma_holds_at_take(data, end, at + front_2.len(), piece_2);
        u32::lemma_round_trip(value.total_score, None, frame, at + front_2.len());
        lemma_holds_at_take(data, end, at + front_3.len(), piece_3);
        u16::lemma_round_trip(value.level, None, frame, at + front_3.len());
        lemma_holds_at_take(data, end, at + front_4.len(), piece_4);
        u32::lemma_round_trip(value.acheivement_experience, None, frame, at + front_4.len());
        lemma_holds_at_take(data, end, at + front_5.len(), piece_5);
        u32::lemma_round_trip(
            value.acheivement_experience_to_next_level,
            None,
            frame,
            at + front_5.len(),
        );
        lemma_holds_at_take(data, end, at + front_6.len(), piece_6);
        lemma_repeated_round_trip::<AchievementData>(
            value.acheivement_data,
            frame,
            at + front_6.len(),
        );
    }
}

impl LengthPrefixed for AchievementListPacket {
    open spec fn announced_length(value: AchievementListPacketModel) -> u16 {
        value.packet_length
    }

    proof fn lemma_exact_length(data: Seq<u8>, at: int) {
        reveal(<AchievementListPacket as Packet>::payload_decoding);
    }
}

#[derive(Clone, Copy, Debug, PartialEq, Eq, Structural)]
pub enum ExperienceType {
    BaseExperience,
    JobExperience,
}

impl ExperienceType {
    /// The number that stands for a variant on the wire.
    pub open spec fn code(self) -> u16 {
        match self {
            ExperienceType::BaseExperience => 1,
            ExperienceType::JobExperience => 2,
        }
    }

    /// The variant that a number stands for.
    pub open spec fn of_code(code: u16) -> Option<ExperienceType> {
        if code == 1 {
            Some(ExperienceType::BaseExperience)
        } else if code == 2 {
            Some(ExperienceType::JobExperience)
        } else {
            None
        }
    }
}

impl ByteConvertable for ExperienceType {
    type Model = ExperienceType;

    open spec fn model(&self) -> ExperienceType {
        *self
    }

    open spec fn accepts(length_hint: Option<usize>) -> bool {
        length_hint is None
    }

    open spec fn decoding(data: Seq<u8>, at: int, length_hint: Option<usize>) -> Result<
        (ExperienceType, nat),
        ConversionError,
    > {
        match u16::decoding(data, at, None) {
            Ok((code, length)) => match ExperienceType::of_code(code) {
                Some(value) => Ok((value, length)),
                None => Err(ConversionError::Invalid),
            },
            Err(error) => Err(error),
        }
    }

    open spec fn encodable(value: ExperienceType, length_hint: Option<usize>) -> bool {
        true
    }

    open spec fn encoding(value: ExperienceType, length_hint: Option<usize>) -> Seq<u8> {
        u16::encoding(value.code(), None)
    }

    fn from_bytes(byte_stream: &mut ByteStream, length_hint: Option<usize>) -> (result: Result<
        Self,
        ConversionError,
    >) {
        let mut cursor = byte_stream.fork();
        let code = u16::from_bytes(&mut cursor, None)?;
        let value = match code {
            1 => ExperienceType::BaseExperience,
            2 => ExperienceType::JobExperience,
            _ => return Err(ConversionError::Invalid),
        };
        byte_stream.follow(&cursor);
        Ok(value)
    }

    fn to_bytes(&self, length_hint: Option<usize>) -> (bytes: Vec<u8>) {
        let code: u16 = match self {
            ExperienceType::BaseExperience => 1,
            ExperienceType::JobExperience => 2,
        };
        code.to_bytes(None)
    }

    proof fn lemma_round_trip(
        value: ExperienceType,
        length_hint: Option<usize>,
        data: Seq<u8>,
        at: int,
    ) {
        u16::lemma_round_trip(value.code(), None, data, at);
    }
}

impl FixedByteSize for ExperienceType {
    open spec fn size() -> nat {
        2
    }

    fn size_in_bytes() -> (size: usize) {
        2
    }

    proof fn lemma_fixed_size(data: Seq<u8>, at: int, value: ExperienceType) {
        assert(Self::size() == 2);
    }
}

#[derive(Clone, Copy, Debug, PartialEq, Eq, Structural)]
pub enum ExperienceSource {
    Regular,
    Quest,
}

impl ExperienceSource {
    /// The number that stands for a variant on the wire.
    pub open spec fn code(self) -> u16 {
        match self {
            ExperienceSource::Regular => 0,
            ExperienceSource::Quest => 1,
        }
    }

    /// The variant that a number stands for.
    pub open spec fn of_code(code: u16) -> Option<ExperienceSource> {
        if code == 0 {
            Some(ExperienceSource::Regular)
        } else if code == 1 {
            Some(ExperienceSource::Quest)
        } else {
            None
        }
    }
}

impl ByteConvertable for ExperienceSource {
    type Model = ExperienceSource;

    open spec fn model(&self) -> ExperienceSource {
        *self
    }

    open spec fn accepts(length_hint: Option<usize>) -> bool {
        length_hint is None
    }

    open spec fn decoding(data: Seq<u8>, at: int, length_hint: Option<usize>) -> Result<
        (ExperienceSource, nat),
        ConversionError,
    > {
        match u16::decoding(data, at, None) {
            Ok((code, length)) => match ExperienceSource::of_code(code) {
                Some(value) => Ok((value, length)),
                None => Err(ConversionError::Invalid),
            },
            Err(error) => Err(error),
        }
    }

    open spec fn encodable(value: ExperienceSource, length_hint: Option<usize>) -> bool {
        true
    }

    open spec fn encoding(value: ExperienceSource, length_hint: Option<usize>) -> Seq<u8> {
        u16::encoding(value.code(), None)
    }

    fn from_bytes(byte_stream: &mut ByteStream, length_hint: Option<usize>) -> (result: Result<
        Self,
        ConversionError,
    >) {
        let mut cursor = byte_stream.fork();
        let code = u16::from_bytes(&mut cursor, None)?;
        let value = match code {
            0 => ExperienceSource::Regular,
            1 => ExperienceSource::Quest,
            _ => return Err(ConversionError::Invalid),
        };
        byte_stream.follow(&cursor);
        Ok(value)
    }

    fn to_bytes(&self, length_hint: Option<usize>) -> (bytes: Vec<u8>) {
        let code: u16 = match self {
            ExperienceSource::Regular => 0,
            ExperienceSource::Quest => 1,
        };
        code.to_bytes(None)
    }

    proof fn lemma_round_trip(
        value: ExperienceSource,
        length_hint: Option<usize>,
        data: Seq<u8>,
        at: int,
    ) {
        u16::lemma_round_trip(value.code(), None, data, at);
    }
}

impl FixedByteSize for ExperienceSource {
    open spec fn size() -> nat {
        2
    }

    fn size_in_bytes() -> (size: usize) {
        2
    }

    proof fn lemma_fixed_size(data: Seq<u8>, at: int, value: ExperienceSource) {
        assert(Self::size() == 2);
    }
}

#[derive(Clone, Copy, Debug)]
pub struct DisplayGainedExperiencePacket {
    pub account_id: AccountId,
    pub amount: u64,
    pub experience_type: ExperienceType,
    pub experience_source: ExperienceSource,
}

impl Packet for DisplayGainedExperiencePacket {
    type Model = DisplayGainedExperiencePacket;

    const PACKET_NAME: &'static str = "DisplayGainedExperiencePacket";

    const IS_PING: bool = false;

    open spec fn model(&self) -> DisplayGainedExperiencePacket {
        *self
    }

    open spec fn packet_header() -> u16 {
        0x0acc
    }

    #[verifier::opaque]
    open spec fn payload_decoding(data: Seq<u8>, at: int) -> Result<
        (DisplayGainedExperiencePacket, nat),
        ConversionError,
    > {
        let account_id = AccountId::decoding(data, at, None);
        let at_amount = behind(at, account_id);
        let amount = u64::decoding(data, at_amount, None);
        let at_experience_type = behind(at_amount, amount);
        let experience_type = ExperienceType::decoding(data, at_experience_type, None);
        let at_experience_source = behind(at_experience_type, experience_type);
        let experience_source = ExperienceSource::decoding(data, at_experience_source, None);
        let behind_all = behind(at_experience_source, experience_source);
        if account_id is Err {
            Err(account_id->Err_0)
        } else if amount is Err {
            Err(amount->Err_0)
        } else if experience_type is Err {
            Err(experience_type->Err_0)
        } else if experience_source is Err {
            Err(experience_source->Err_0)
        } else {
            Ok(
                (
                    DisplayGainedExperiencePacket {
                        account_id: account_id->Ok_0.0,
                        amount: amount->Ok_0.0,
                        experience_type: experience_type->Ok_0.0,
                        experience_source: experience_source->Ok_0.0,
                    },
                    (behind_all - at) as nat,
                ),
            )
        }
    }

    open spec fn encodable(value: DisplayGainedExperiencePacket) -> bool {
        true
    }

    #[verifier::opaque]
    open spec fn payload_encoding(value: DisplayGainedExperiencePacket) -> Seq<u8> {
        AccountId::encoding(value.account_id, None)
            + u64::encoding(value.amount, None)
            + ExperienceType::encoding(value.experience_type, None)
            + ExperienceSource::encoding(value.experience_source, None)
    }

    fn header() -> (header: u16) {
        0x0acc
    }

    fn payload_from_bytes(byte_stream: &mut ByteStream) -> (result: Result<
        Self,
        ConversionError,
    >) {
        proof {
            reveal(<DisplayGainedExperiencePacket as Packet>::payload_decoding);
        }
        let mut cursor = byte_stream.fork();
        let account_id = AccountId::from_bytes(&mut cursor, None)?;
        let amount = u64::from_bytes(&mut cursor, None)?;
        let experience_type = ExperienceType::from_bytes(&mut cursor, None)?;
        let experience_source = ExperienceSource::from_bytes(&mut cursor, None)?;
        byte_stream.follow(&cursor);
        Ok(DisplayGainedExperiencePacket {
            account_id,
            amount,
            experience_type,
            experience_source,
        })
    }

    fn payload_to_bytes(&self) -> (bytes: Vec<u8>) {
        proof {
            reveal(<DisplayGainedExperiencePacket as Packet>::payload_encoding);
        }
        let mut bytes = self.account_id.to_bytes(None);
        let mut piece = self.amount.to_bytes(None);
        bytes.append(&mut piece);
        let mut piece = self.experience_type.to_bytes(None);
        bytes.append(&mut piece);
        let mut piece = self.experience_source.to_bytes(None);
        bytes.append(&mut piece);
        bytes
    }

    proof fn lemma_payload_round_trip(
        value: DisplayGainedExperiencePacket,
        data: Seq<u8>,
        at: int,
    ) {
        reveal(<DisplayGainedExperiencePacket as Packet>::payload_decoding);
        reveal(<DisplayGainedExperiencePacket as Packet>::payload_encoding);
        let piece_0 = AccountId::encoding(value.account_id, None);
        let piece_1 = u64::encoding(value.amount, None);
        let piece_2 = ExperienceType::encoding(value.experience_type, None);
        let piece_3 = ExperienceSource::encoding(value.experience_source, None);
        let front_1 = piece_0;
        let front_2 = front_1 + piece_1;
        let front_3 = front_2 + piece_2;
        lemma_holds_at_split(data, at, front_3, piece_3);
        lemma_holds_at_split(data, at, front_2, piece_2);
        lemma_holds_at_split(data, at, front_1, piece_1);
        AccountId::lemma_round_trip(value.account_id, None, data, at);
        u64::lemma_round_trip(value.amount, None, data, at + front_1.len());
        ExperienceType::lemma_round_trip(value.experience_type, None, data, at + front_2.len());
        ExperienceSource::lemma_round_trip(value.experience_source, None, data, at + front_3.len());
    }
}

} // verus!
