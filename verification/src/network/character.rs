//! The packets of the character server.

use vstd::prelude::*;

use crate::loaders::convertable::{
    all_encodable, all_faithful, behind, count_whole, decode_repeated, encode_repeated,
    lemma_repeated_round_trip, lemma_repeated_size, lemma_whole_count, lemma_zeroed, models,
    repeated_decoding, repeated_encoding, whole_count, zeroed, ByteConvertable, FixedByteSize,
};
use crate::loaders::stream::{ByteStream, ConversionError};
use crate::loaders::wire::{
    holds_at, lemma_holds_at_bounds, lemma_holds_at_split, lemma_holds_at_take,
};
use crate::network::ids::{AccountId, CharacterId, Sex};
use crate::network::packet::{LengthPrefixed, Packet};

verus! {

/// Sent by the client to the character server after after successfully logging
/// into the login server.
/// Attempts to log into the character server using the provided information.
#[derive(Clone, Copy, Debug)]
pub struct CharacterServerLoginPacket {
    pub account_id: AccountId,
    pub login_id1: u32,
    pub login_id2: u32,
    pub unknown: u16,
    pub sex: Sex,
}

impl CharacterServerLoginPacket {
    /// The packet that [`new`](Self::new) makes.
    pub open spec fn made(
        account_id: AccountId,
        login_id1: u32,
        login_id2: u32,
        sex: Sex,
    ) -> CharacterServerLoginPacket {
        CharacterServerLoginPacket { account_id, login_id1, login_id2, unknown: 0, sex }
    }

    pub fn new(account_id: AccountId, login_id1: u32, login_id2: u32, sex: Sex) -> (packet: Self)
        ensures
            packet.model() == Self::made(
                account_id.model(),
                login_id1.model(),
                login_id2.model(),
                sex.model(),
            ),
    {
        let packet = CharacterServerLoginPacket {
            account_id,
            login_id1,
            login_id2,
            unknown: 0,
            sex,
        };
        packet
    }
}

impl Packet for CharacterServerLoginPacket {
    type Model = CharacterServerLoginPacket;

    const PACKET_NAME: &'static str = "CharacterServerLoginPacket";

    const IS_PING: bool = false;

    open spec fn model(&self) -> CharacterServerLoginPacket {
        *self
    }

    open spec fn packet_header() -> u16 {
        0x0065
    }

    #[verifier::opaque]
    open spec fn payload_decoding(data: Seq<u8>, at: int) -> Result<
        (CharacterServerLoginPacket, nat),
        ConversionError,
    > {
        let account_id = AccountId::decoding(data, at, None);
        let at_login_id1 = behind(at, account_id);
        let login_id1 = u32::decoding(data, at_login_id1, None);
        let at_login_id2 = behind(at_login_id1, login_id1);
        let login_id2 = u32::decoding(data, at_login_id2, None);
        let at_unknown = behind(at_login_id2, login_id2);
        let unknown = u16::decoding(data, at_unknown, None);
        let at_sex = behind(at_unknown, unknown);
        let sex = Sex::decoding(data, at_sex, None);
        let behind_all = behind(at_sex, sex);
        if account_id is Err {
            Err(account_id->Err_0)
        } else if login_id1 is Err {
            Err(login_id1->Err_0)
        } else if login_id2 is Err {
            Err(login_id2->Err_0)
        } else if unknown is Err {
            Err(unknown->Err_0)
        } else if sex is Err {
            Err(sex->Err_0)
        } else {
            Ok(
                (
                    CharacterServerLoginPacket {
                        account_id: account_id->Ok_0.0,
                        login_id1: login_id1->Ok_0.0,
                        login_id2: login_id2->Ok_0.0,
                        unknown: unknown->Ok_0.0,
                        sex: sex->Ok_0.0,
                    },
                    (behind_all - at) as nat,
                ),
            )
        }
    }

    open spec fn encodable(value: CharacterServerLoginPacket) -> bool {
        true
    }

    #[verifier::opaque]
    open spec fn payload_encoding(value: CharacterServerLoginPacket) -> Seq<u8> {
        AccountId::encoding(value.account_id, None)
            + u32::encoding(value.login_id1, None)
            + u32::encoding(value.login_id2, None)
            + u16::encoding(value.unknown, None)
            + Sex::encoding(value.sex, None)
    }

    fn header() -> (header: u16) {
        0x0065
    }

    fn payload_from_bytes(byte_stream: &mut ByteStream) -> (result: Result<
        Self,
        ConversionError,
    >) {
        proof {
            reveal(<CharacterServerLoginPacket as Packet>::payload_decoding);
        }
        let mut cursor = byte_stream.fork();
        let account_id = AccountId::from_bytes(&mut cursor, None)?;
        let login_id1 = u32::from_bytes(&mut cursor, None)?;
        let login_id2 = u32::from_bytes(&mut cursor, None)?;
        let unknown = u16::from_bytes(&mut cursor, None)?;
        let sex = Sex::from_bytes(&mut cursor, None)?;
        byte_stream.follow(&cursor);
        Ok(CharacterServerLoginPacket { account_id, login_id1, login_id2, unknown, sex })
    }

    fn payload_to_bytes(&self) -> (bytes: Vec<u8>) {
        proof {
            reveal(<CharacterServerLoginPacket as Packet>::payload_encoding);
        }
        let mut bytes = self.account_id.to_bytes(None);
        let mut piece = self.login_id1.to_bytes(None);
        bytes.append(&mut piece);
        let mut piece = self.login_id2.to_bytes(None);
        bytes.append(&mut piece);
        let mut piece = self.unknown.to_bytes(None);
        bytes.append(&mut piece);
        let mut piece = self.sex.to_bytes(None);
        bytes.append(&mut piece);
        bytes
    }

    proof fn lemma_payload_round_trip(value: CharacterServerLoginPacket, data: Seq<u8>, at: int) {
        reveal(<CharacterServerLoginPacket as Packet>::payload_decoding);
        reveal(<CharacterServerLoginPacket as Packet>::payload_encoding);
        let piece_0 = AccountId::encoding(value.account_id, None);
        let piece_1 = u32::encoding(value.login_id1, None);
        let piece_2 = u32::encoding(value.login_id2, None);
        let piece_3 = u16::encoding(value.unknown, None);
        let piece_4 = Sex::encoding(value.sex, None);
        let front_1 = piece_0;
        let front_2 = front_1 + piece_1;
        let front_3 = front_2 + piece_2;
        let front_4 = front_3 + piece_3;
        lemma_holds_at_split(data, at, front_4, piece_4);
        lemma_holds_at_split(data, at, front_3, piece_3);
        lemma_holds_at_split(data, at, front_2, piece_2);
        lemma_holds_at_split(data, at, front_1, piece_1);
        AccountId::lemma_round_trip(value.account_id, None, data, at);
        u32::lemma_round_trip(value.login_id1, None, data, at + front_1.len());
        u32::lemma_round_trip(value.login_id2, None, data, at + front_2.len());
        u16::lemma_round_trip(value.unknown, None, data, at + front_3.len());
        Sex::lemma_round_trip(value.sex, None, data, at + front_4.len());
    }
}

/// Sent by the character server as a response to [CharacterServerLoginPacket]
/// succeeding. Provides basic information about the number of available
/// character slots.
#[derive(Clone, Copy, Debug)]
pub struct CharacterServerLoginSuccessPacket {
    /// Always 29 on rAthena
    pub unknown: u16,
    pub normal_slot_count: u8,
    pub vip_slot_count: u8,
    pub billing_slot_count: u8,
    pub poducilble_slot_count: u8,
    pub vaild_slot: u8,
    pub unused: [u8; 20],
}

impl Packet for CharacterServerLoginSuccessPacket {
    type Model = CharacterServerLoginSuccessPacket;

    const PACKET_NAME: &'static str = "CharacterServerLoginSuccessPacket";

    const IS_PING: bool = false;

    open spec fn model(&self) -> CharacterServerLoginSuccessPacket {
        *self
    }

    open spec fn packet_header() -> u16 {
        0x082d
    }

    #[verifier::opaque]
    open spec fn payload_decoding(data: Seq<u8>, at: int) -> Result<
        (CharacterServerLoginSuccessPacket, nat),
        ConversionError,
    > {
        let unknown = u16::decoding(data, at, None);
        let at_normal_slot_count = behind(at, unknown);
        let normal_slot_count = u8::decoding(data, at_normal_slot_count, None);
        let at_vip_slot_count = behind(at_normal_slot_count, normal_slot_count);
        let vip_slot_count = u8::decoding(data, at_vip_slot_count, None);
        let at_billing_slot_count = behind(at_vip_slot_count, vip_slot_count);
        let billing_slot_count = u8::decoding(data, at_billing_slot_count, None);
        let at_poducilble_slot_count = behind(at_billing_slot_count, billing_slot_count);
        let poducilble_slot_count = u8::decoding(data, at_poducilble_slot_count, None);
        let at_vaild_slot = behind(at_poducilble_slot_count, poducilble_slot_count);
        let vaild_slot = u8::decoding(data, at_vaild_slot, None);
        let at_unused = behind(at_vaild_slot, vaild_slot);
        let unused = <[u8; 20]>::decoding(data, at_unused, None);
        let behind_all = behind(at_unused, unused);
        if unknown is Err {
            Err(unknown->Err_0)
        } else if normal_slot_count is Err {
            Err(normal_slot_count->Err_0)
        } else if vip_slot_count is Err {
            Err(vip_slot_count->Err_0)
        } else if billing_slot_count is Err {
            Err(billing_slot_count->Err_0)
        } else if poducilble_slot_count is Err {
            Err(poducilble_slot_count->Err_0)
        } else if vaild_slot is Err {
            Err(vaild_slot->Err_0)
        } else if unused is Err {
            Err(unused->Err_0)
        } else {
            Ok(
                (
                    CharacterServerLoginSuccessPacket {
                        unknown: unknown->Ok_0.0,
                        normal_slot_count: normal_slot_count->Ok_0.0,
                        vip_slot_count: vip_slot_count->Ok_0.0,
                        billing_slot_count: billing_slot_count->Ok_0.0,
                        poducilble_slot_count: poducilble_slot_count->Ok_0.0,
                        vaild_slot: vaild_slot->Ok_0.0,
                        unused: unused->Ok_0.0,
                    },
                    (behind_all - at) as nat,
                ),
            )
        }
    }

    open spec fn encodable(value: CharacterServerLoginSuccessPacket) -> bool {
        true
    }

    #[verifier::opaque]
    open spec fn payload_encoding(value: CharacterServerLoginSuccessPacket) -> Seq<u8> {
        u16::encoding(value.unknown, None)
            + u8::encoding(value.normal_slot_count, None)
            + u8::encoding(value.vip_slot_count, None)
            + u8::encoding(value.billing_slot_count, None)
            + u8::encoding(value.poducilble_slot_count, None)
            + u8::encoding(value.vaild_slot, None)
            + <[u8; 20]>::encoding(value.unused, None)
    }

    fn header() -> (header: u16) {
        0x082d
    }

    fn payload_from_bytes(byte_stream: &mut ByteStream) -> (result: Result<
        Self,
        ConversionError,
    >) {
        proof {
            reveal(<CharacterServerLoginSuccessPacket as Packet>::payload_decoding);
        }
        let mut cursor = byte_stream.fork();
        let unknown = u16::from_bytes(&mut cursor, None)?;
        let normal_slot_count = u8::from_bytes(&mut cursor, None)?;
        let vip_slot_count = u8::from_bytes(&mut cursor, None)?;
        let billing_slot_count = u8::from_bytes(&mut cursor, None)?;
        let poducilble_slot_count = u8::from_bytes(&mut cursor, None)?;
        let vaild_slot = u8::from_bytes(&mut cursor, None)?;
        let unused = <[u8; 20]>::from_bytes(&mut cursor, None)?;
        byte_stream.follow(&cursor);
        Ok(CharacterServerLoginSuccessPacket {
            unknown,
            normal_slot_count,
            vip_slot_count,
            billing_slot_count,
            poducilble_slot_count,
            vaild_slot,
            unused,
        })
    }

    fn payload_to_bytes(&self) -> (bytes: Vec<u8>) {
        proof {
            reveal(<CharacterServerLoginSuccessPacket as Packet>::payload_encoding);
        }
        let mut bytes = self.unknown.to_bytes(None);
        let mut piece = self.normal_slot_count.to_bytes(None);
        bytes.append(&mut piece);
        let mut piece = self.vip_slot_count.to_bytes(None);
        bytes.append(&mut piece);
        let mut piece = self.billing_slot_count.to_bytes(None);
        bytes.append(&mut piece);
        let mut piece = self.poducilble_slot_count.to_bytes(None);
        bytes.append(&mut piece);
        let mut piece = self.vaild_slot.to_bytes(None);
        bytes.append(&mut piece);
        let mut piece = self.unused.to_bytes(None);
        bytes.append(&mut piece);
        bytes
    }

    proof fn lemma_payload_round_trip(
        value: CharacterServerLoginSuccessPacket,
        data: Seq<u8>,
        at: int,
    ) {
        reveal(<CharacterServerLoginSuccessPacket as Packet>::payload_decoding);
        reveal(<CharacterServerLoginSuccessPacket as Packet>::payload_encoding);
        let piece_0 = u16::encoding(value.unknown, None);
        let piece_1 = u8::encoding(value.normal_slot_count, None);
        let piece_2 = u8::encoding(value.vip_slot_count, None);
        let piece_3 = u8::encoding(value.billing_slot_count, None);
        let piece_4 = u8::encoding(value.poducilble_slot_count, None);
        let piece_5 = u8::encoding(value.vaild_slot, None);
        let piece_6 = <[u8; 20]>::encoding(value.unused, None);
        let front_1 = piece_0;
        let front_2 = front_1 + piece_1;
        let front_3 = front_2 + piece_2;
        let front_4 = front_3 + piece_3;
        let front_5 = front_4 + piece_4;
        let front_6 = front_5 + piece_5;
        lemma_holds_at_split(data, at, front_6, piece_6);
        lemma_holds_at_split(data, at, front_5, piece_5);
        lemma_holds_at_split(data, at, front_4, piece_4);
        lemma_holds_at_split(data, at, front_3, piece_3);
        lemma_holds_at_split(data, at, front_2, piece_2);
        lemma_holds_at_split(data, at, front_1, piece_1);
        u16::lemma_round_trip(value.unknown, None, data, at);
        u8::lemma_round_trip(value.normal_slot_count, None, data, at + front_1.len());
        u8::lemma_round_trip(value.vip_slot_count, None, data, at + front_2.len());
        u8::lemma_round_trip(value.billing_slot_count, None, data, at + front_3.len());
        u8::lemma_round_trip(value.poducilble_slot_count, None, data, at + front_4.len());
        u8::lemma_round_trip(value.vaild_slot, None, data, at + front_5.len());
        <[u8; 20]>::lemma_round_trip(value.unused, None, data, at + front_6.len());
    }
}

#[derive(Clone, Copy, Debug)]
pub struct Packet6b00 {
    pub unused: u16,
    pub maximum_slot_count: u8,
    pub available_slot_count: u8,
    pub vip_slot_count: u8,
    pub unknown: [u8; 20],
}

impl Packet for Packet6b00 {
    type Model = Packet6b00;

    const PACKET_NAME: &'static str = "Packet6b00";

    const IS_PING: bool = false;

    open spec fn model(&self) -> Packet6b00 {
        *self
    }

    open spec fn packet_header() -> u16 {
        0x006b
    }

    #[verifier::opaque]
    open spec fn payload_decoding(data: Seq<u8>, at: int) -> Result<
        (Packet6b00, nat),
        ConversionError,
    > {
        let unused = u16::decoding(data, at, None);
        let at_maximum_slot_count = behind(at, unused);
        let maximum_slot_count = u8::decoding(data, at_maximum_slot_count, None);
        let at_available_slot_count = behind(at_maximum_slot_count, maximum_slot_count);
        let available_slot_count = u8::decoding(data, at_available_slot_count, None);
        let at_vip_slot_count = behind(at_available_slot_count, available_slot_count);
        let vip_slot_count = u8::decoding(data, at_vip_slot_count, None);
        let at_unknown = behind(at_vip_slot_count, vip_slot_count);
        let unknown = <[u8; 20]>::decoding(data, at_unknown, None);
        let behind_all = behind(at_unknown, unknown);
        if unused is Err {
            Err(unused->Err_0)
        } else if maximum_slot_count is Err {
            Err(maximum_slot_count->Err_0)
        } else if available_slot_count is Err {
            Err(available_slot_count->Err_0)
        } else if vip_slot_count is Err {
            Err(vip_slot_count->Err_0)
        } else if unknown is Err {
            Err(unknown->Err_0)
        } else {
            Ok(
                (
                    Packet6b00 {
                        unused: unused->Ok_0.0,
                        maximum_slot_count: maximum_slot_count->Ok_0.0,
                        available_slot_count: available_slot_count->Ok_0.0,
                        vip_slot_count: vip_slot_count->Ok_0.0,
                        unknown: unknown->Ok_0.0,
                    },
                    (behind_all - at) as nat,
                ),
            )
        }
    }

    open spec fn encodable(value: Packet6b00) -> bool {
        true
    }

    #[verifier::opaque]
    open spec fn payload_encoding(value: Packet6b00) -> Seq<u8> {
        u16::encoding(value.unused, None)
            + u8::encoding(value.maximum_slot_count, None)
            + u8::encoding(value.available_slot_count, None)
            + u8::encoding(value.vip_slot_count, None)
            + <[u8; 20]>::encoding(value.unknown, None)
    }

    fn header() -> (header: u16) {
        0x006b
    }

    fn payload_from_bytes(byte_stream: &mut ByteStream) -> (result: Result<
        Self,
        ConversionError,
    >) {
        proof {
            reveal(<Packet6b00 as Packet>::payload_decoding);
        }
        let mut cursor = byte_stream.fork();
        let unused = u16::from_bytes(&mut cursor, None)?;
        let maximum_slot_count = u8::from_bytes(&mut cursor, None)?;
        let available_slot_count = u8::from_bytes(&mut cursor, None)?;
        let vip_slot_count = u8::from_bytes(&mut cursor, None)?;
        let unknown = <[u8; 20]>::from_bytes(&mut cursor, None)?;
        byte_stream.follow(&cursor);
        Ok(Packet6b00 {
            unused,
            maximum_slot_count,
            available_slot_count,
            vip_slot_count,
            unknown,
        })
    }

    fn payload_to_bytes(&self) -> (bytes: Vec<u8>) {
        proof {
            reveal(<Packet6b00 as Packet>::payload_encoding);
        }
        let mut bytes = self.unused.to_bytes(None);
        let mut piece = self.maximum_slot_count.to_bytes(None);
        bytes.append(&mut piece);
        let mut piece = self.available_slot_count.to_bytes(None);
        bytes.append(&mut piece);
        let mut piece = self.vip_slot_count.to_bytes(None);
        bytes.append(&mut piece);
        let mut piece = self.unknown.to_bytes(None);
        bytes.append(&mut piece);
        bytes
    }

    proof fn lemma_payload_round_trip(value: Packet6b00, data: Seq<u8>, at: int) {
        reveal(<Packet6b00 as Packet>::payload_decoding);
        reveal(<Packet6b00 as Packet>::payload_encoding);
        let piece_0 = u16::encoding(value.unused, None);
        let piece_1 = u8::encoding(value.maximum_slot_count, None);
        let piece_2 = u8::encoding(value.available_slot_count, None);
        let piece_3 = u8::encoding(value.vip_slot_count, None);
        let piece_4 = <[u8; 20]>::encoding(value.unknown, None);
        let front_1 = piece_0;
        let front_2 = front_1 + piece_1;
        let front_3 = front_2 + piece_2;
        let front_4 = front_3 + piece_3;
        lemma_holds_at_split(data, at, front_4, piece_4);
        lemma_holds_at_split(data, at, front_3, piece_3);
        lemma_holds_at_split(data, at, front_2, piece_2);
        lemma_holds_at_split(data, at, front_1, piece_1);
        u16::lemma_round_trip(value.unused, None, data, at);
        u8::lemma_round_trip(value.maximum_slot_count, None, data, at + front_1.len());
        u8::lemma_round_trip(value.available_slot_count, None, data, at + front_2.len());
        u8::lemma_round_trip(value.vip_slot_count, None, data, at + front_3.len());
        <[u8; 20]>::lemma_round_trip(value.unknown, None, data, at + front_4.len());
    }
}

#[derive(Clone, Copy, Debug)]
pub struct CharacterServerKeepalivePacket {
    /// rAthena never reads this value, so just set it to 0.
    pub account_id: AccountId,
}

impl CharacterServerKeepalivePacket {
    /// The packet that [`new`](Self::new) makes.
    pub open spec fn made() -> CharacterServerKeepalivePacket {
        CharacterServerKeepalivePacket { account_id: AccountId(0) }
    }

    pub fn new() -> (packet: Self)
        ensures
            packet.model() == Self::made(),
    {
        let packet = CharacterServerKeepalivePacket { account_id: AccountId(0) };
        packet
    }
}

impl Packet for CharacterServerKeepalivePacket {
    type Model = CharacterServerKeepalivePacket;

    const PACKET_NAME: &'static str = "CharacterServerKeepalivePacket";

    const IS_PING: bool = true;

    open spec fn model(&self) -> CharacterServerKeepalivePacket {
        *self
    }

    open spec fn packet_header() -> u16 {
        0x0187
    }

    #[verifier::opaque]
    open spec fn payload_decoding(data: Seq<u8>, at: int) -> Result<
        (CharacterServerKeepalivePacket, nat),
        ConversionError,
    > {
        let account_id = AccountId::decoding(data, at, None);
        let behind_all = behind(at, account_id);
        if account_id is Err {
            Err(account_id->Err_0)
        } else {
            Ok(
                (
                    CharacterServerKeepalivePacket {
                        account_id: account_id->Ok_0.0,
                    },
                    (behind_all - at) as nat,
                ),
            )
        }
    }

    open spec fn encodable(value: CharacterServerKeepalivePacket) -> bool {
        true
    }

    #[verifier::opaque]
    open spec fn payload_encoding(value: CharacterServerKeepalivePacket) -> Seq<u8> {
        AccountId::encoding(value.account_id, None)
    }

    fn header() -> (header: u16) {
        0x0187
    }

    fn payload_from_bytes(byte_stream: &mut ByteStream) -> (result: Result<
        Self,
        ConversionError,
    >) {
        proof {
            reveal(<CharacterServerKeepalivePacket as Packet>::payload_decoding);
        }
        let mut cursor = byte_stream.fork();
        let account_id = AccountId::from_bytes(&mut cursor, None)?;
        byte_stream.follow(&cursor);
        Ok(CharacterServerKeepalivePacket { account_id })
    }

    fn payload_to_bytes(&self) -> (bytes: Vec<u8>) {
        proof {
            reveal(<CharacterServerKeepalivePacket as Packet>::payload_encoding);
        }
        let bytes = self.account_id.to_bytes(None);
        bytes
    }

    proof fn lemma_payload_round_trip(
        value: CharacterServerKeepalivePacket,
        data: Seq<u8>,
        at: int,
    ) {
        reveal(<CharacterServerKeepalivePacket as Packet>::payload_decoding);
        reveal(<CharacterServerKeepalivePacket as Packet>::payload_encoding);
        let piece_0 = AccountId::encoding(value.account_id, None);
        AccountId::lemma_round_trip(value.account_id, None, data, at);
    }
}

#[derive(Debug)]
pub struct CharacterInformation {
    pub character_id: CharacterId,
    pub experience: i64,
    pub money: i32,
    pub job_experience: i64,
    pub jop_level: i32,
    pub body_state: i32,
    pub health_state: i32,
    pub effect_state: i32,
    pub virtue: i32,
    pub honor: i32,
    pub jobpoint: i16,
    pub health_points: i64,
    pub maximum_health_points: i64,
    pub spell_points: i64,
    pub maximum_spell_points: i64,
    pub movement_speed: i16,
    pub job: i16,
    pub head: i16,
    pub body: i16,
    pub weapon: i16,
    pub level: i16,
    pub sp_point: i16,
    pub accessory: i16,
    pub shield: i16,
    pub accessory2: i16,
    pub accessory3: i16,
    pub head_palette: i16,
    pub body_palette: i16,
    pub name: String,
    pub strength: u8,
    pub agility: u8,
    pub vit: u8,
    pub intelligence: u8,
    pub dexterity: u8,
    pub luck: u8,
    pub character_number: u8,
    pub hair_color: u8,
    pub b_is_changed_char: i16,
    pub map_name: String,
    pub deletion_reverse_date: i32,
    pub robe_palette: i32,
    pub character_slot_change_count: i32,
    pub character_name_change_count: i32,
    pub sex: Sex,
}

/// What a [`CharacterInformation`] stands for.
pub struct CharacterInformationModel {
    pub character_id: CharacterId,
    pub experience: i64,
    pub money: i32,
    pub job_experience: i64,
    pub jop_level: i32,
    pub body_state: i32,
    pub health_state: i32,
    pub effect_state: i32,
    pub virtue: i32,
    pub honor: i32,
    pub jobpoint: i16,
    pub health_points: i64,
    pub maximum_health_points: i64,
    pub spell_points: i64,
    pub maximum_spell_points: i64,
    pub movement_speed: i16,
    pub job: i16,
    pub head: i16,
    pub body: i16,
    pub weapon: i16,
    pub level: i16,
    pub sp_point: i16,
    pub accessory: i16,
    pub shield: i16,
    pub accessory2: i16,
    pub accessory3: i16,
    pub head_palette: i16,
    pub body_palette: i16,
    pub name: Seq<char>,
    pub strength: u8,
    pub agility: u8,
    pub vit: u8,
    pub intelligence: u8,
    pub dexterity: u8,
    pub luck: u8,
    pub character_number: u8,
    pub hair_color: u8,
    pub b_is_changed_char: i16,
    pub map_name: Seq<char>,
    pub deletion_reverse_date: i32,
    pub robe_palette: i32,
    pub character_slot_change_count: i32,
    pub character_name_change_count: i32,
    pub sex: Sex,
}

impl Clone for CharacterInformation {
    fn clone(&self) -> (copy: Self)
        ensures
            copy.model() == self.model(),
    {
        CharacterInformation {
            character_id: self.character_id,
            experience: self.experience,
            money: self.money,
            job_experience: self.job_experience,
            jop_level: self.jop_level,
            body_state: self.body_state,
            health_state: self.health_state,
            effect_state: self.effect_state,
            virtue: self.virtue,
            honor: self.honor,
            jobpoint: self.jobpoint,
            health_points: self.health_points,
            maximum_health_points: self.maximum_health_points,
            spell_points: self.spell_points,
            maximum_spell_points: self.maximum_spell_points,
            movement_speed: self.movement_speed,
            job: self.job,
            head: self.head,
            body: self.body,
            weapon: self.weapon,
            level: self.level,
            sp_point: self.sp_point,
            accessory: self.accessory,
            shield: self.shield,
            accessory2: self.accessory2,
            accessory3: self.accessory3,
            head_palette: self.head_palette,
            body_palette: self.body_palette,
            name: self.name.clone(),
            strength: self.strength,
            agility: self.agility,
            vit: self.vit,
            intelligence: self.intelligence,
            dexterity: self.dexterity,
            luck: self.luck,
            character_number: self.character_number,
            hair_color: self.hair_color,
            b_is_changed_char: self.b_is_changed_char,
            map_name: self.map_name.clone(),
            deletion_reverse_date: self.deletion_reverse_date,
            robe_palette: self.robe_palette,
            character_slot_change_count: self.character_slot_change_count,
            character_name_change_count: self.character_name_change_count,
            sex: self.sex,
        }
    }
}

impl CharacterInformation {
    /// What the fields from `character_id` to `effect_state` decode to.
    #[verifier::opaque]
    pub open spec fn decoding_part_1(data: Seq<u8>, at: int) -> Result<
        ((CharacterId, i64, i32, i64, i32, i32, i32, i32), nat),
        ConversionError,
    > {
        let character_id = CharacterId::decoding(data, at, None);
        let at_experience = behind(at, character_id);
        let experience = i64::decoding(data, at_experience, None);
        let at_money = behind(at_experience, experience);
        let money = i32::decoding(data, at_money, None);
        let at_job_experience = behind(at_money, money);
        let job_experience = i64::decoding(data, at_job_experience, None);
        let at_jop_level = behind(at_job_experience, job_experience);
        let jop_level = i32::decoding(data, at_jop_level, None);
        let at_body_state = behind(at_jop_level, jop_level);
        let body_state = i32::decoding(data, at_body_state, None);
        let at_health_state = behind(at_body_state, body_state);
        let health_state = i32::decoding(data, at_health_state, None);
        let at_effect_state = behind(at_health_state, health_state);
        let effect_state = i32::decoding(data, at_effect_state, None);
        let behind_all = behind(at_effect_state, effect_state);
        if character_id is Err {
            Err(character_id->Err_0)
        } else if experience is Err {
            Err(experience->Err_0)
        } else if money is Err {
            Err(money->Err_0)
        } else if job_experience is Err {
            Err(job_experience->Err_0)
        } else if jop_level is Err {
            Err(jop_level->Err_0)
        } else if body_state is Err {
            Err(body_state->Err_0)
        } else if health_state is Err {
            Err(health_state->Err_0)
        } else if effect_state is Err {
            Err(effect_state->Err_0)
        } else {
            Ok(
                (
                    (
                        character_id->Ok_0.0,
                        experience->Ok_0.0,
                        money->Ok_0.0,
                        job_experience->Ok_0.0,
                        jop_level->Ok_0.0,
                        body_state->Ok_0.0,
                        health_state->Ok_0.0,
                        effect_state->Ok_0.0,
                    ),
                    (behind_all - at) as nat,
                ),
            )
        }
    }

    /// The wire form of the fields from `character_id` to `effect_state`.
    #[verifier::opaque]
    pub open spec fn encoding_part_1(value: CharacterInformationModel) -> Seq<u8> {
        CharacterId::encoding(value.character_id, None)
            + i64::encoding(value.experience, None)
            + i32::encoding(value.money, None)
            + i64::encoding(value.job_experience, None)
            + i32::encoding(value.jop_level, None)
            + i32::encoding(value.body_state, None)
            + i32::encoding(value.health_state, None)
            + i32::encoding(value.effect_state, None)
    }

    fn decode_part_1(byte_stream: &mut ByteStream) -> (result: Result<
        (CharacterId, i64, i32, i64, i32, i32, i32, i32),
        ConversionError,
    >)
        ensures
            final(byte_stream).data() == old(byte_stream).data(),
            final(byte_stream).version() == old(byte_stream).version(),
            match Self::decoding_part_1(old(byte_stream).data(), old(byte_stream).offset() as int) {
                Ok((value, length)) => {
                    &&& result is Ok
                    &&& result->Ok_0.0.model() == value.0
                    &&& result->Ok_0.1.model() == value.1
                    &&& result->Ok_0.2.model() == value.2
                    &&& result->Ok_0.3.model() == value.3
                    &&& result->Ok_0.4.model() == value.4
                    &&& result->Ok_0.5.model() == value.5
                    &&& result->Ok_0.6.model() == value.6
                    &&& result->Ok_0.7.model() == value.7
                    &&& final(byte_stream).offset() == old(byte_stream).offset() + length
                },
                Err(error) => {
                    &&& result is Err
                    &&& result->Err_0 == error
                    &&& final(byte_stream).offset() == old(byte_stream).offset()
                },
            },
    {
        proof {
            reveal(CharacterInformation::decoding_part_1);
        }
        let mut cursor = byte_stream.fork();
        let character_id = CharacterId::from_bytes(&mut cursor, None)?;
        let experience = i64::from_bytes(&mut cursor, None)?;
        let money = i32::from_bytes(&mut cursor, None)?;
        let job_experience = i64::from_bytes(&mut cursor, None)?;
        let jop_level = i32::from_bytes(&mut cursor, None)?;
        let body_state = i32::from_bytes(&mut cursor, None)?;
        let health_state = i32::from_bytes(&mut cursor, None)?;
        let effect_state = i32::from_bytes(&mut cursor, None)?;
        byte_stream.follow(&cursor);
        Ok((
            character_id,
            experience,
            money,
            job_experience,
            jop_level,
            body_state,
            health_state,
            effect_state,
        ))
    }

    fn encode_part_1(&self) -> (bytes: Vec<u8>)
        ensures
            bytes@ == Self::encoding_part_1(self.model()),
    {
        proof {
            reveal(CharacterInformation::encoding_part_1);
        }
        let mut bytes = self.character_id.to_bytes(None);
        let mut piece = self.experience.to_bytes(None);
        bytes.append(&mut piece);
        let mut piece = self.money.to_bytes(None);
        bytes.append(&mut piece);
        let mut piece = self.job_experience.to_bytes(None);
        bytes.append(&mut piece);
        let mut piece = self.jop_level.to_bytes(None);
        bytes.append(&mut piece);
        let mut piece = self.body_state.to_bytes(None);
        bytes.append(&mut piece);
        let mut piece = self.health_state.to_bytes(None);
        bytes.append(&mut piece);
        let mut piece = self.effect_state.to_bytes(None);
        bytes.append(&mut piece);
        bytes
    }

    #[verifier::rlimit(50)]
    proof fn lemma_round_trip_part_1(value: CharacterInformationModel, data: Seq<u8>, at: int)
        requires
            holds_at(data, at, Self::encoding_part_1(value)),
        ensures
            Self::decoding_part_1(data, at) == Ok::<
                ((CharacterId, i64, i32, i64, i32, i32, i32, i32), nat),
                ConversionError,
            >(
                (
                    (
                        value.character_id,
                        value.experience,
                        value.money,
                        value.job_experience,
                        value.jop_level,
                        value.body_state,
                        value.health_state,
                        value.effect_state,
                    ),
                    Self::encoding_part_1(value).len(),
                ),
            ),
    {
        reveal(CharacterInformation::decoding_part_1);
        reveal(CharacterInformation::encoding_part_1);
        let piece_0 = CharacterId::encoding(value.character_id, None);
        let piece_1 = i64::encoding(value.experience, None);
        let piece_2 = i32::encoding(value.money, None);
        let piece_3 = i64::encoding(value.job_experience, None);
        let piece_4 = i32::encoding(value.jop_level, None);
        let piece_5 = i32::encoding(value.body_state, None);
        let piece_6 = i32::encoding(value.health_state, None);
        let piece_7 = i32::encoding(value.effect_state, None);
        let front_1 = piece_0;
        let front_2 = front_1 + piece_1;
        let front_3 = front_2 + piece_2;
        let front_4 = front_3 + piece_3;
        let front_5 = front_4 + piece_4;
        let front_6 = front_5 + piece_5;
        let front_7 = front_6 + piece_6;
        lemma_holds_at_split(data, at, front_7, piece_7);
        lemma_holds_at_split(data, at, front_6, piece_6);
        lemma_holds_at_split(data, at, front_5, piece_5);
        lemma_holds_at_split(data, at, front_4, piece_4);
        lemma_holds_at_split(data, at, front_3, piece_3);
        lemma_holds_at_split(data, at, front_2, piece_2);
        lemma_holds_at_split(data, at, front_1, piece_1);
        CharacterId::lemma_round_trip(value.character_id, None, data, at);
        i64::lemma_round_trip(value.experience, None, data, at + front_1.len());
        i32::lemma_round_trip(value.money, None, data, at + front_2.len());
        i64::lemma_round_trip(value.job_experience, None, data, at + front_3.len());
        i32::lemma_round_trip(value.jop_level, None, data, at + front_4.len());
        i32::lemma_round_trip(value.body_state, None, data, at + front_5.len());
        i32::lemma_round_trip(value.health_state, None, data, at + front_6.len());
        i32::lemma_round_trip(value.effect_state, None, data, at + front_7.len());
    }

    proof fn lemma_size_part_1(data: Seq<u8>, at: int, value: CharacterInformationModel)
        ensures
            Self::decoding_part_1(data, at) matches Ok((_, length)) ==> length == 40,
            Self::encoding_part_1(value).len() == 40,
    {
        reveal(CharacterInformation::decoding_part_1);
        reveal(CharacterInformation::encoding_part_1);
        CharacterId::lemma_fixed_size(data, at, value.character_id);
        i64::lemma_fixed_size(data, at + 4, value.experience);
        i32::lemma_fixed_size(data, at + 12, value.money);
        i64::lemma_fixed_size(data, at + 16, value.job_experience);
        i32::lemma_fixed_size(data, at + 24, value.jop_level);
        i32::lemma_fixed_size(data, at + 28, value.body_state);
        i32::lemma_fixed_size(data, at + 32, value.health_state);
        i32::lemma_fixed_size(data, at + 36, value.effect_state);
    }

    /// What the fields from `virtue` to `movement_speed` decode to.
    #[verifier::opaque]
    pub open spec fn decoding_part_2(data: Seq<u8>, at: int) -> Result<
        ((i32, i32, i16, i64, i64, i64, i64, i16), nat),
        ConversionError,
    > {
        let virtue = i32::decoding(data, at, None);
        let at_honor = behind(at, virtue);
        let honor = i32::decoding(data, at_honor, None);
        let at_jobpoint = behind(at_honor, honor);
        let jobpoint = i16::decoding(data, at_jobpoint, None);
        let at_health_points = behind(at_jobpoint, jobpoint);
        let health_points = i64::decoding(data, at_health_points, None);
        let at_maximum_health_points = behind(at_health_points, health_points);
        let maximum_health_points = i64::decoding(data, at_maximum_health_points, None);
        let at_spell_points = behind(at_maximum_health_points, maximum_health_points);
        let spell_points = i64::decoding(data, at_spell_points, None);
        let at_maximum_spell_points = behind(at_spell_points, spell_points);
        let maximum_spell_points = i64::decoding(data, at_maximum_spell_points, None);
        let at_movement_speed = behind(at_maximum_spell_points, maximum_spell_points);
        let movement_speed = i16::decoding(data, at_movement_speed, None);
        let behind_all = behind(at_movement_speed, movement_speed);
        if virtue is Err {
            Err(virtue->Err_0)
        } else if honor is Err {
            Err(honor->Err_0)
        } else if jobpoint is Err {
            Err(jobpoint->Err_0)
        } else if health_points is Err {
            Err(health_points->Err_0)
        } else if maximum_health_points is Err {
            Err(maximum_health_points->Err_0)
        } else if spell_points is Err {
            Err(spell_points->Err_0)
        } else if maximum_spell_points is Err {
            Err(maximum_spell_points->Err_0)
        } else if movement_speed is Err {
            Err(movement_speed->Err_0)
        } else {
            Ok(
                (
                    (
                        virtue->Ok_0.0,
                        honor->Ok_0.0,
                        jobpoint->Ok_0.0,
                        health_points->Ok_0.0,
                        maximum_health_points->Ok_0.0,
                        spell_points->Ok_0.0,
                        maximum_spell_points->Ok_0.0,
                        movement_speed->Ok_0.0,
                    ),
                    (behind_all - at) as nat,
                ),
            )
        }
    }

    /// The wire form of the fields from `virtue` to `movement_speed`.
    #[verifier::opaque]
    pub open spec fn encoding_part_2(value: CharacterInformationModel) -> Seq<u8> {
        i32::encoding(value.virtue, None)
            + i32::encoding(value.honor, None)
            + i16::encoding(value.jobpoint, None)
            + i64::encoding(value.health_points, None)
            + i64::encoding(value.maximum_health_points, None)
            + i64::encoding(value.spell_points, None)
            + i64::encoding(value.maximum_spell_points, None)
            + i16::encoding(value.movement_speed, None)
    }

    fn decode_part_2(byte_stream: &mut ByteStream) -> (result: Result<
        (i32, i32, i16, i64, i64, i64, i64, i16),
        ConversionError,
    >)
        ensures
            final(byte_stream).data() == old(byte_stream).data(),
            final(byte_stream).version() == old(byte_stream).version(),
            match Self::decoding_part_2(old(byte_stream).data(), old(byte_stream).offset() as int) {
                Ok((value, length)) => {
                    &&& result is Ok
                    &&& result->Ok_0.0.model() == value.0
                    &&& result->Ok_0.1.model() == value.1
                    &&& result->Ok_0.2.model() == value.2
                    &&& result->Ok_0.3.model() == value.3
                    &&& result->Ok_0.4.model() == value.4
                    &&& result->Ok_0.5.model() == value.5
                    &&& result->Ok_0.6.model() == value.6
                    &&& result->Ok_0.7.model() == value.7
                    &&& final(byte_stream).offset() == old(byte_stream).offset() + length
                },
                Err(error) => {
                    &&& result is Err
                    &&& result->Err_0 == error
                    &&& final(byte_stream).offset() == old(byte_stream).offset()
                },
            },
    {
        proof {
            reveal(CharacterInformation::decoding_part_2);
        }
        let mut cursor = byte_stream.fork();
        let virtue = i32::from_bytes(&mut cursor, None)?;
        let honor = i32::from_bytes(&mut cursor, None)?;
        let jobpoint = i16::from_bytes(&mut cursor, None)?;
        let health_points = i64::from_bytes(&mut cursor, None)?;
        let maximum_health_points = i64::from_bytes(&mut cursor, None)?;
        let spell_points = i64::from_bytes(&mut cursor, None)?;
        let maximum_spell_points = i64::from_bytes(&mut cursor, None)?;
        let movement_speed = i16::from_bytes(&mut cursor, None)?;
        byte_stream.follow(&cursor);
        Ok((
            virtue,
            honor,
            jobpoint,
            health_points,
            maximum_health_points,
            spell_points,
            maximum_spell_points,
            movement_speed,
        ))
    }

    fn encode_part_2(&self) -> (bytes: Vec<u8>)
        ensures
            bytes@ == Self::encoding_part_2(self.model()),
    {
        proof {
            reveal(CharacterInformation::encoding_part_2);
        }
        let mut bytes = self.virtue.to_bytes(None);
        let mut piece = self.honor.to_bytes(None);
        bytes.append(&mut piece);
        let mut piece = self.jobpoint.to_bytes(None);
        bytes.append(&mut piece);
        let mut piece = self.health_points.to_bytes(None);
        bytes.append(&mut piece);
        let mut piece = self.maximum_health_points.to_bytes(None);
        bytes.append(&mut piece);
        let mut piece = self.spell_points.to_bytes(None);
        bytes.append(&mut piece);
        let mut piece = self.maximum_spell_points.to_bytes(None);
        bytes.append(&mut piece);
        let mut piece = self.movement_speed.to_bytes(None);
        bytes.append(&mut piece);
        bytes
    }

    #[verifier::rlimit(50)]
    proof fn lemma_round_trip_part_2(value: CharacterInformationModel, data: Seq<u8>, at: int)
        requires
            holds_at(data, at, Self::encoding_part_2(value)),
        ensures
            Self::decoding_part_2(data, at) == Ok::<
                ((i32, i32, i16, i64, i64, i64, i64, i16), nat),
                ConversionError,
            >(
                (
                    (
                        value.virtue,
                        value.honor,
                        value.jobpoint,
                        value.health_points,
                        value.maximum_health_points,
                        value.spell_points,
                        value.maximum_spell_points,
                        value.movement_speed,
                    ),
                    Self::encoding_part_2(value).len(),
                ),
            ),
    {
        reveal(CharacterInformation::decoding_part_2);
        reveal(CharacterInformation::encoding_part_2);
        let piece_0 = i32::encoding(value.virtue, None);
        let piece_1 = i32::encoding(value.honor, None);
        let piece_2 = i16::encoding(value.jobpoint, None);
        let piece_3 = i64::encoding(value.health_points, None);
        let piece_4 = i64::encoding(value.maximum_health_points, None);
        let piece_5 = i64::encoding(value.spell_points, None);
        let piece_6 = i64::encoding(value.maximum_spell_points, None);
        let piece_7 = i16::encoding(value.movement_speed, None);
        let front_1 = piece_0;
        let front_2 = front_1 + piece_1;
        let front_3 = front_2 + piece_2;
        let front_4 = front_3 + piece_3;
        let front_5 = front_4 + piece_4;
        let front_6 = front_5 + piece_5;
        let front_7 = front_6 + piece_6;
        lemma_holds_at_split(data, at, front_7, piece_7);
        lemma_holds_at_split(data, at, front_6, piece_6);
        lemma_holds_at_split(data, at, front_5, piece_5);
        lemma_holds_at_split(data, at, front_4, piece_4);
        lemma_holds_at_split(data, at, front_3, piece_3);
        lemma_holds_at_split(data, at, front_2, piece_2);
        lemma_holds_at_split(data, at, front_1, piece_1);
        i32::lemma_round_trip(value.virtue, None, data, at);
        i32::lemma_round_trip(value.honor, None, data, at + front_1.len());
        i16::lemma_round_trip(value.jobpoint, None, data, at + front_2.len());
        i64::lemma_round_trip(value.health_points, None, data, at + front_3.len());
        i64::lemma_round_trip(value.maximum_health_points, None, data, at + front_4.len());
        i64::lemma_round_trip(value.spell_points, None, data, at + front_5.len());
        i64::lemma_round_trip(value.maximum_spell_points, None, data, at + front_6.len());
        i16::lemma_round_trip(value.movement_speed, None, data, at + front_7.len());
    }

    proof fn lemma_size_part_2(data: Seq<u8>, at: int, value: CharacterInformationModel)
        ensures
            Self::decoding_part_2(data, at) matches Ok((_, length)) ==> length == 44,
            Self::encoding_part_2(value).len() == 44,
    {
        reveal(CharacterInformation::decoding_part_2);
        reveal(CharacterInformation::encoding_part_2);
        i32::lemma_fixed_size(data, at, value.virtue);
        i32::lemma_fixed_size(data, at + 4, value.honor);
        i16::lemma_fixed_size(data, at + 8, value.jobpoint);
        i64::lemma_fixed_size(data, at + 10, value.health_points);
        i64::lemma_fixed_size(data, at + 18, value.maximum_health_points);
        i64::lemma_fixed_size(data, at + 26, value.spell_points);
        i64::lemma_fixed_size(data, at + 34, value.maximum_spell_points);
        i16::lemma_fixed_size(data, at + 42, value.movement_speed);
    }

    /// What the fields from `job` to `shield` decode to.
    #[verifier::opaque]
    pub open spec fn decoding_part_3(data: Seq<u8>, at: int) -> Result<
        ((i16, i16, i16, i16, i16, i16, i16, i16), nat),
        ConversionError,
    > {
        let job = i16::decoding(data, at, None);
        let at_head = behind(at, job);
        let head = i16::decoding(data, at_head, None);
        let at_body = behind(at_head, head);
        let body = i16::decoding(data, at_body, None);
        let at_weapon = behind(at_body, body);
        let weapon = i16::decoding(data, at_weapon, None);
        let at_level = behind(at_weapon, weapon);
        let level = i16::decoding(data, at_level, None);
        let at_sp_point = behind(at_level, level);
        let sp_point = i16::decoding(data, at_sp_point, None);
        let at_accessory = behind(at_sp_point, sp_point);
        let accessory = i16::decoding(data, at_accessory, None);
        let at_shield = behind(at_accessory, accessory);
        let shield = i16::decoding(data, at_shield, None);
        let behind_all = behind(at_shield, shield);
        if job is Err {
            Err(job->Err_0)
        } else if head is Err {
            Err(head->Err_0)
        } else if body is Err {
            Err(body->Err_0)
        } else if weapon is Err {
            Err(weapon->Err_0)
        } else if level is Err {
            Err(level->Err_0)
        } else if sp_point is Err {
            Err(sp_point->Err_0)
        } else if accessory is Err {
            Err(accessory->Err_0)
        } else if shield is Err {
            Err(shield->Err_0)
        } else {
            Ok(
                (
                    (
                        job->Ok_0.0,
                        head->Ok_0.0,
                        body->Ok_0.0,
                        weapon->Ok_0.0,
                        level->Ok_0.0,
                        sp_point->Ok_0.0,
                        accessory->Ok_0.0,
                        shield->Ok_0.0,
                    ),
                    (behind_all - at) as nat,
                ),
            )
        }
    }

    /// The wire form of the fields from `job` to `shield`.
    #[verifier::opaque]
    pub open spec fn encoding_part_3(value: CharacterInformationModel) -> Seq<u8> {
        i16::encoding(value.job, None)
            + i16::encoding(value.head, None)
            + i16::encoding(value.body, None)
            + i16::encoding(value.weapon, None)
            + i16::encoding(value.level, None)
            + i16::encoding(value.sp_point, None)
            + i16::encoding(value.accessory, None)
            + i16::encoding(value.shield, None)
    }

    fn decode_part_3(byte_stream: &mut ByteStream) -> (result: Result<
        (i16, i16, i16, i16, i16, i16, i16, i16),
        ConversionError,
    >)
        ensures
            final(byte_stream).data() == old(byte_stream).data(),
            final(byte_stream).version() == old(byte_stream).version(),
            match Self::decoding_part_3(old(byte_stream).data(), old(byte_stream).offset() as int) {
                Ok((value, length)) => {
                    &&& result is Ok
                    &&& result->Ok_0.0.model() == value.0
                    &&& result->Ok_0.1.model() == value.1
                    &&& result->Ok_0.2.model() == value.2
                    &&& result->Ok_0.3.model() == value.3
                    &&& result->Ok_0.4.model() == value.4
                    &&& result->Ok_0.5.model() == value.5
                    &&& result->Ok_0.6.model() == value.6
                    &&& result->Ok_0.7.model() == value.7
                    &&& final(byte_stream).offset() == old(byte_stream).offset() + length
                },
                Err(error) => {
                    &&& result is Err
                    &&& result->Err_0 == error
                    &&& final(byte_stream).offset() == old(byte_stream).offset()
                },
            },
    {
        proof {
            reveal(CharacterInformation::decoding_part_3);
        }
        let mut cursor = byte_stream.fork();
        let job = i16::from_bytes(&mut cursor, None)?;
        let head = i16::from_bytes(&mut cursor, None)?;
        let body = i16::from_bytes(&mut cursor, None)?;
        let weapon = i16::from_bytes(&mut cursor, None)?;
        let level = i16::from_bytes(&mut cursor, None)?;
        let sp_point = i16::from_bytes(&mut cursor, None)?;
        let accessory = i16::from_bytes(&mut cursor, None)?;
        let shield = i16::from_bytes(&mut cursor, None)?;
        byte_stream.follow(&cursor);
        Ok((job, head, body, weapon, level, sp_point, accessory, shield))
    }

    fn encode_part_3(&self) -> (bytes: Vec<u8>)
        ensures
            bytes@ == Self::encoding_part_3(self.model()),
    {
        proof {
            reveal(CharacterInformation::encoding_part_3);
        }
        let mut bytes = self.job.to_bytes(None);
        let mut piece = self.head.to_bytes(None);
        bytes.append(&mut piece);
        let mut piece = self.body.to_bytes(None);
        bytes.append(&mut piece);
        let mut piece = self.weapon.to_bytes(None);
        bytes.append(&mut piece);
        let mut piece = self.level.to_bytes(None);
        bytes.append(&mut piece);
        let mut piece = self.sp_point.to_bytes(None);
        bytes.append(&mut piece);
        let mut piece = self.accessory.to_bytes(None);
        bytes.append(&mut piece);
        let mut piece = self.shield.to_bytes(None);
        bytes.append(&mut piece);
        bytes
    }

    #[verifier::rlimit(50)]
    proof fn lemma_round_trip_part_3(value: CharacterInformationModel, data: Seq<u8>, at: int)
        requires
            holds_at(data, at, Self::encoding_part_3(value)),
        ensures
            Self::decoding_part_3(data, at) == Ok::<
                ((i16, i16, i16, i16, i16, i16, i16, i16), nat),
                ConversionError,
            >(
                (
                    (
                        value.job,
                        value.head,
                        value.body,
                        value.weapon,
                        value.level,
                        value.sp_point,
                        value.accessory,
                        value.shield,
                    ),
                    Self::encoding_part_3(value).len(),
                ),
            ),
    {
        reveal(CharacterInformation::decoding_part_3);
        reveal(CharacterInformation::encoding_part_3);
        let piece_0 = i16::encoding(value.job, None);
        let piece_1 = i16::encoding(value.head, None);
        let piece_2 = i16::encoding(value.body, None);
        let piece_3 = i16::encoding(value.weapon, None);
        let piece_4 = i16::encoding(value.level, None);
        let piece_5 = i16::encoding(value.sp_point, None);
        let piece_6 = i16::encoding(value.accessory, None);
        let piece_7 = i16::encoding(value.shield, None);
        let front_1 = piece_0;
        let front_2 = front_1 + piece_1;
        let front_3 = front_2 + piece_2;
        let front_4 = front_3 + piece_3;
        let front_5 = front_4 + piece_4;
        let front_6 = front_5 + piece_5;
        let front_7 = front_6 + piece_6;
        lemma_holds_at_split(data, at, front_7, piece_7);
        lemma_holds_at_split(data, at, front_6, piece_6);
        lemma_holds_at_split(data, at, front_5, piece_5);
        lemma_holds_at_split(data, at, front_4, piece_4);
        lemma_holds_at_split(data, at, front_3, piece_3);
        lemma_holds_at_split(data, at, front_2, piece_2);
        lemma_holds_at_split(data, at, front_1, piece_1);
        i16::lemma_round_trip(value.job, None, data, at);
        i16::lemma_round_trip(value.head, None, data, at + front_1.len());
        i16::lemma_round_trip(value.body, None, data, at + front_2.len());
        i16::lemma_round_trip(value.weapon, None, data, at + front_3.len());
        i16::lemma_round_trip(value.level, None, data, at + front_4.len());
        i16::lemma_round_trip(value.sp_point, None, data, at + front_5.len());
        i16::lemma_round_trip(value.accessory, None, data, at + front_6.len());
        i16::lemma_round_trip(value.shield, None, data, at + front_7.len());
    }

    proof fn lemma_size_part_3(data: Seq<u8>, at: int, value: CharacterInformationModel)
        ensures
            Self::decoding_part_3(data, at) matches Ok((_, length)) ==> length == 16,
            Self::encoding_part_3(value).len() == 16,
    {
        reveal(CharacterInformation::decoding_part_3);
        reveal(CharacterInformation::encoding_part_3);
        i16::lemma_fixed_size(data, at, value.job);
        i16::lemma_fixed_size(data, at + 2, value.head);
        i16::lemma_fixed_size(data, at + 4, value.body);
        i16::lemma_fixed_size(data, at + 6, value.weapon);
        i16::lemma_fixed_size(data, at + 8, value.level);
        i16::lemma_fixed_size(data, at + 10, value.sp_point);
        i16::lemma_fixed_size(data, at + 12, value.accessory);
        i16::lemma_fixed_size(data, at + 14, value.shield);
    }

    /// What the fields from `accessory2` to `vit` decode to.
    #[verifier::opaque]
    pub open spec fn decoding_part_4(data: Seq<u8>, at: int) -> Result<
        ((i16, i16, i16, i16, Seq<char>, u8, u8, u8), nat),
        ConversionError,
    > {
        let accessory2 = i16::decoding(data, at, None);
        let at_accessory3 = behind(at, accessory2);
        let accessory3 = i16::decoding(data, at_accessory3, None);
        let at_head_palette = behind(at_accessory3, accessory3);
        let head_palette = i16::decoding(data, at_head_palette, None);
        let at_body_palette = behind(at_head_palette, head_palette);
        let body_palette = i16::decoding(data, at_body_palette, None);
        let at_name = behind(at_body_palette, body_palette);
        let name = String::decoding(data, at_name, Some(24));
        let at_strength = behind(at_name, name);
        let strength = u8::decoding(data, at_strength, None);
        let at_agility = behind(at_strength, strength);
        let agility = u8::decoding(data, at_agility, None);
        let at_vit = behind(at_agility, agility);
        let vit = u8::decoding(data, at_vit, None);
        let behind_all = behind(at_vit, vit);
        if accessory2 is Err {
            Err(accessory2->Err_0)
        } else if accessory3 is Err {
            Err(accessory3->Err_0)
        } else if head_palette is Err {
            Err(head_palette->Err_0)
        } else if body_palette is Err {
            Err(body_palette->Err_0)
        } else if name is Err {
            Err(name->Err_0)
        } else if strength is Err {
            Err(strength->Err_0)
        } else if agility is Err {
            Err(agility->Err_0)
        } else if vit is Err {
            Err(vit->Err_0)
        } else {
            Ok(
                (
                    (
                        accessory2->Ok_0.0,
                        accessory3->Ok_0.0,
                        head_palette->Ok_0.0,
                        body_palette->Ok_0.0,
                        name->Ok_0.0,
                        strength->Ok_0.0,
                        agility->Ok_0.0,
                        vit->Ok_0.0,
                    ),
                    (behind_all - at) as nat,
                ),
            )
        }
    }

    /// Whether the fields from `accessory2` to `vit` have a wire form.
    pub open spec fn encodable_part_4(value: CharacterInformationModel) -> bool {
        String::encodable(value.name, Some(24))
    }

    /// The wire form of the fields from `accessory2` to `vit`.
    #[verifier::opaque]
    pub open spec fn encoding_part_4(value: CharacterInformationModel) -> Seq<u8> {
        i16::encoding(value.accessory2, None)
            + i16::encoding(value.accessory3, None)
            + i16::encoding(value.head_palette, None)
            + i16::encoding(value.body_palette, None)
            + String::encoding(value.name, Some(24))
            + u8::encoding(value.strength, None)
            + u8::encoding(value.agility, None)
            + u8::encoding(value.vit, None)
    }

    fn decode_part_4(byte_stream: &mut ByteStream) -> (result: Result<
        (i16, i16, i16, i16, String, u8, u8, u8),
        ConversionError,
    >)
        ensures
            final(byte_stream).data() == old(byte_stream).data(),
            final(byte_stream).version() == old(byte_stream).version(),
            match Self::decoding_part_4(old(byte_stream).data(), old(byte_stream).offset() as int) {
                Ok((value, length)) => {
                    &&& result is Ok
                    &&& result->Ok_0.0.model() == value.0
                    &&& result->Ok_0.1.model() == value.1
                    &&& result->Ok_0.2.model() == value.2
                    &&& result->Ok_0.3.model() == value.3
                    &&& result->Ok_0.4.model() == value.4
                    &&& result->Ok_0.5.model() == value.5
                    &&& result->Ok_0.6.model() == value.6
                    &&& result->Ok_0.7.model() == value.7
                    &&& final(byte_stream).offset() == old(byte_stream).offset() + length
                },
                Err(error) => {
                    &&& result is Err
                    &&& result->Err_0 == error
                    &&& final(byte_stream).offset() == old(byte_stream).offset()
                },
            },
    {
        proof {
            reveal(CharacterInformation::decoding_part_4);
        }
        let mut cursor = byte_stream.fork();
        let accessory2 = i16::from_bytes(&mut cursor, None)?;
        let accessory3 = i16::from_bytes(&mut cursor, None)?;
        let head_palette = i16::from_bytes(&mut cursor, None)?;
        let body_palette = i16::from_bytes(&mut cursor, None)?;
        let name = String::from_bytes(&mut cursor, Some(24))?;
        let strength = u8::from_bytes(&mut cursor, None)?;
        let agility = u8::from_bytes(&mut cursor, None)?;
        let vit = u8::from_bytes(&mut cursor, None)?;
        byte_stream.follow(&cursor);
        Ok((accessory2, accessory3, head_palette, body_palette, name, strength, agility, vit))
    }

    fn encode_part_4(&self) -> (bytes: Vec<u8>)
        requires
            Self::encodable_part_4(self.model()),
        ensures
            bytes@ == Self::encoding_part_4(self.model()),
    {
        proof {
            reveal(CharacterInformation::encoding_part_4);
        }
        let mut bytes = self.accessory2.to_bytes(None);
        let mut piece = self.accessory3.to_bytes(None);
        bytes.append(&mut piece);
        let mut piece = self.head_palette.to_bytes(None);
        bytes.append(&mut piece);
        let mut piece = self.body_palette.to_bytes(None);
        bytes.append(&mut piece);
        let mut piece = self.name.to_bytes(Some(24));
        bytes.append(&mut piece);
        let mut piece = self.strength.to_bytes(None);
        bytes.append(&mut piece);
        let mut piece = self.agility.to_bytes(None);
        bytes.append(&mut piece);
        let mut piece = self.vit.to_bytes(None);
        bytes.append(&mut piece);
        bytes
    }

    #[verifier::rlimit(50)]
    proof fn lemma_round_trip_part_4(value: CharacterInformationModel, data: Seq<u8>, at: int)
        requires
            Self::encodable_part_4(value),
            String::faithful(value.name, Some(24)),
            holds_at(data, at, Self::encoding_part_4(value)),
        ensures
            Self::decoding_part_4(data, at) == Ok::<
                ((i16, i16, i16, i16, Seq<char>, u8, u8, u8), nat),
                ConversionError,
            >(
                (
                    (
                        value.accessory2,
                        value.accessory3,
                        value.head_palette,
                        value.body_palette,
                        value.name,
                        value.strength,
                        value.agility,
                        value.vit,
                    ),
                    Self::encoding_part_4(value).len(),
                ),
            ),
    {
        reveal(CharacterInformation::decoding_part_4);
        reveal(CharacterInformation::encoding_part_4);
        let piece_0 = i16::encoding(value.accessory2, None);
        let piece_1 = i16::encoding(value.accessory3, None);
        let piece_2 = i16::encoding(value.head_palette, None);
        let piece_3 = i16::encoding(value.body_palette, None);
        let piece_4 = String::encoding(value.name, Some(24));
        let piece_5 = u8::encoding(value.strength, None);
        let piece_6 = u8::encoding(value.agility, None);
        let piece_7 = u8::encoding(value.vit, None);
        let front_1 = piece_0;
        let front_2 = front_1 + piece_1;
        let front_3 = front_2 + piece_2;
        let front_4 = front_3 + piece_3;
        let front_5 = front_4 + piece_4;
        let front_6 = front_5 + piece_5;
        let front_7 = front_6 + piece_6;
        lemma_holds_at_split(data, at, front_7, piece_7);
        lemma_holds_at_split(data, at, front_6, piece_6);
        lemma_holds_at_split(data, at, front_5, piece_5);
        lemma_holds_at_split(data, at, front_4, piece_4);
        lemma_holds_at_split(data, at, front_3, piece_3);
        lemma_holds_at_split(data, at, front_2, piece_2);
        lemma_holds_at_split(data, at, front_1, piece_1);
        i16::lemma_round_trip(value.accessory2, None, data, at);
        i16::lemma_round_trip(value.accessory3, None, data, at + front_1.len());
        i16::lemma_round_trip(value.head_palette, None, data, at + front_2.len());
        i16::lemma_round_trip(value.body_palette, None, data, at + front_3.len());
        String::lemma_round_trip(value.name, Some(24), data, at + front_4.len());
        u8::lemma_round_trip(value.strength, None, data, at + front_5.len());
        u8::lemma_round_trip(value.agility, None, data, at + front_6.len());
        u8::lemma_round_trip(value.vit, None, data, at + front_7.len());
    }

    proof fn lemma_size_part_4(data: Seq<u8>, at: int, value: CharacterInformationModel)
        ensures
            Self::decoding_part_4(data, at) matches Ok((_, length)) ==> length == 35,
            Self::encodable_part_4(value) ==> Self::encoding_part_4(value).len() == 35,
    {
        reveal(CharacterInformation::decoding_part_4);
        reveal(CharacterInformation::encoding_part_4);
        i16::lemma_fixed_size(data, at, value.accessory2);
        i16::lemma_fixed_size(data, at + 2, value.accessory3);
        i16::lemma_fixed_size(data, at + 4, value.head_palette);
        i16::lemma_fixed_size(data, at + 6, value.body_palette);
        u8::lemma_fixed_size(data, at + 32, value.strength);
        u8::lemma_fixed_size(data, at + 33, value.agility);
        u8::lemma_fixed_size(data, at + 34, value.vit);
    }

    /// What the fields from `intelligence` to `deletion_reverse_date` decode to.
    #[verifier::opaque]
    pub open spec fn decoding_part_5(data: Seq<u8>, at: int) -> Result<
        ((u8, u8, u8, u8, u8, i16, Seq<char>, i32), nat),
        ConversionError,
    > {
        let intelligence = u8::decoding(data, at, None);
        let at_dexterity = behind(at, intelligence);
        let dexterity = u8::decoding(data, at_dexterity, None);
        let at_luck = behind(at_dexterity, dexterity);
        let luck = u8::decoding(data, at_luck, None);
        let at_character_number = behind(at_luck, luck);
        let character_number = u8::decoding(data, at_character_number, None);
        let at_hair_color = behind(at_character_number, character_number);
        let hair_color = u8::decoding(data, at_hair_color, None);
        let at_b_is_changed_char = behind(at_hair_color, hair_color);
        let b_is_changed_char = i16::decoding(data, at_b_is_changed_char, None);
        let at_map_name = behind(at_b_is_changed_char, b_is_changed_char);
        let map_name = String::decoding(data, at_map_name, Some(16));
        let at_deletion_reverse_date = behind(at_map_name, map_name);
        let deletion_reverse_date = i32::decoding(data, at_deletion_reverse_date, None);
        let behind_all = behind(at_deletion_reverse_date, deletion_reverse_date);
        if intelligence is Err {
            Err(intelligence->Err_0)
        } else if dexterity is Err {
            Err(dexterity->Err_0)
        } else if luck is Err {
            Err(luck->Err_0)
        } else if character_number is Err {
            Err(character_number->Err_0)
        } else if hair_color is Err {
            Err(hair_color->Err_0)
        } else if b_is_changed_char is Err {
            Err(b_is_changed_char->Err_0)
        } else if map_name is Err {
            Err(map_name->Err_0)
        } else if deletion_reverse_date is Err {
            Err(deletion_reverse_date->Err_0)
        } else {
            Ok(
                (
                    (
                        intelligence->Ok_0.0,
                        dexterity->Ok_0.0,
                        luck->Ok_0.0,
                        character_number->Ok_0.0,
                        hair_color->Ok_0.0,
                        b_is_changed_char->Ok_0.0,
                        map_name->Ok_0.0,
                        deletion_reverse_date->Ok_0.0,
                    ),
                    (behind_all - at) as nat,
                ),
            )
        }
    }

    /// Whether the fields from `intelligence` to `deletion_reverse_date` have a wire form.
    pub open spec fn encodable_part_5(value: CharacterInformationModel) -> bool {
        String::encodable(value.map_name, Some(16))
    }

    /// The wire form of the fields from `intelligence` to `deletion_reverse_date`.
    #[verifier::opaque]
    pub open spec fn encoding_part_5(value: CharacterInformationModel) -> Seq<u8> {
        u8::encoding(value.intelligence, None)
            + u8::encoding(value.dexterity, None)
            + u8::encoding(value.luck, None)
            + u8::encoding(value.character_number, None)
            + u8::encoding(value.hair_color, None)
            + i16::encoding(value.b_is_changed_char, None)
            + String::encoding(value.map_name, Some(16))
            + i32::encoding(value.deletion_reverse_date, None)
    }

    fn decode_part_5(byte_stream: &mut ByteStream) -> (result: Result<
        (u8, u8, u8, u8, u8, i16, String, i32),
        ConversionError,
    >)
        ensures
            final(byte_stream).data() == old(byte_stream).data(),
            final(byte_stream).version() == old(byte_stream).version(),
            match Self::decoding_part_5(old(byte_stream).data(), old(byte_stream).offset() as int) {
                Ok((value, length)) => {
                    &&& result is Ok
                    &&& result->Ok_0.0.model() == value.0
                    &&& result->Ok_0.1.model() == value.1
                    &&& result->Ok_0.2.model() == value.2
                    &&& result->Ok_0.3.model() == value.3
                    &&& result->Ok_0.4.model() == value.4
                    &&& result->Ok_0.5.model() == value.5
                    &&& result->Ok_0.6.model() == value.6
                    &&& result->Ok_0.7.model() == value.7
                    &&& final(byte_stream).offset() == old(byte_stream).offset() + length
                },
                Err(error) => {
                    &&& result is Err
                    &&& result->Err_0 == error
                    &&& final(byte_stream).offset() == old(byte_stream).offset()
                },
            },
    {
        proof {
            reveal(CharacterInformation::decoding_part_5);
        }
        let mut cursor = byte_stream.fork();
        let intelligence = u8::from_bytes(&mut cursor, None)?;
        let dexterity = u8::from_bytes(&mut cursor, None)?;
        let luck = u8::from_bytes(&mut cursor, None)?;
        let character_number = u8::from_bytes(&mut cursor, None)?;
        let hair_color = u8::from_bytes(&mut cursor, None)?;
        let b_is_changed_char = i16::from_bytes(&mut cursor, None)?;
        let map_name = String::from_bytes(&mut cursor, Some(16))?;
        let deletion_reverse_date = i32::from_bytes(&mut cursor, None)?;
        byte_stream.follow(&cursor);
        Ok((
            intelligence,
            dexterity,
            luck,
            character_number,
            hair_color,
            b_is_changed_char,
            map_name,
            deletion_reverse_date,
        ))
    }

    fn encode_part_5(&self) -> (bytes: Vec<u8>)
        requires
            Self::encodable_part_5(self.model()),
        ensures
            bytes@ == Self::encoding_part_5(self.model()),
    {
        proof {
            reveal(CharacterInformation::encoding_part_5);
        }
        let mut bytes = self.intelligence.to_bytes(None);
        let mut piece = self.dexterity.to_bytes(None);
        bytes.append(&mut piece);
        let mut piece = self.luck.to_bytes(None);
        bytes.append(&mut piece);
        let mut piece = self.character_number.to_bytes(None);
        bytes.append(&mut piece);
        let mut piece = self.hair_color.to_bytes(None);
        bytes.append(&mut piece);
        let mut piece = self.b_is_changed_char.to_bytes(None);
        bytes.append(&mut piece);
        let mut piece = self.map_name.to_bytes(Some(16));
        bytes.append(&mut piece);
        let mut piece = self.deletion_reverse_date.to_bytes(None);
        bytes.append(&mut piece);
        bytes
    }

    #[verifier::rlimit(50)]
    proof fn lemma_round_trip_part_5(value: CharacterInformationModel, data: Seq<u8>, at: int)
        requires
            Self::encodable_part_5(value),
            String::faithful(value.map_name, Some(16)),
            holds_at(data, at, Self::encoding_part_5(value)),
        ensures
            Self::decoding_part_5(data, at) == Ok::<
                ((u8, u8, u8, u8, u8, i16, Seq<char>, i32), nat),
                ConversionError,
            >(
                (
                    (
                        value.intelligence,
                        value.dexterity,
                        value.luck,
                        value.character_number,
                        value.hair_color,
                        value.b_is_changed_char,
                        value.map_name,
                        value.deletion_reverse_date,
                    ),
                    Self::encoding_part_5(value).len(),
                ),
            ),
    {
        reveal(CharacterInformation::decoding_part_5);
        reveal(CharacterInformation::encoding_part_5);
        let piece_0 = u8::encoding(value.intelligence, None);
        let piece_1 = u8::encoding(value.dexterity, None);
        let piece_2 = u8::encoding(value.luck, None);
        let piece_3 = u8::encoding(value.character_number, None);
        let piece_4 = u8::encoding(value.hair_color, None);
        let piece_5 = i16::encoding(value.b_is_changed_char, None);
        let piece_6 = String::encoding(value.map_name, Some(16));
        let piece_7 = i32::encoding(value.deletion_reverse_date, None);
        let front_1 = piece_0;
        let front_2 = front_1 + piece_1;
        let front_3 = front_2 + piece_2;
        let front_4 = front_3 + piece_3;
        let front_5 = front_4 + piece_4;
        let front_6 = front_5 + piece_5;
        let front_7 = front_6 + piece_6;
        lemma_holds_at_split(data, at, front_7, piece_7);
        lemma_holds_at_split(data, at, front_6, piece_6);
        lemma_holds_at_split(data, at, front_5, piece_5);
        lemma_holds_at_split(data, at, front_4, piece_4);
        lemma_holds_at_split(data, at, front_3, piece_3);
        lemma_holds_at_split(data, at, front_2, piece_2);
        lemma_holds_at_split(data, at, front_1, piece_1);
        u8::lemma_round_trip(value.intelligence, None, data, at);
        u8::lemma_round_trip(value.dexterity, None, data, at + front_1.len());
        u8::lemma_round_trip(value.luck, None, data, at + front_2.len());
        u8::lemma_round_trip(value.character_number, None, data, at + front_3.len());
        u8::lemma_round_trip(value.hair_color, None, data, at + front_4.len());
        i16::lemma_round_trip(value.b_is_changed_char, None, data, at + front_5.len());
        String::lemma_round_trip(value.map_name, Some(16), data, at + front_6.len());
        i32::lemma_round_trip(value.deletion_reverse_date, None, data, at + front_7.len());
    }

    proof fn lemma_size_part_5(data: Seq<u8>, at: int, value: CharacterInformationModel)
        ensures
            Self::decoding_part_5(data, at) matches Ok((_, length)) ==> length == 27,
            Self::encodable_part_5(value) ==> Self::encoding_part_5(value).len() == 27,
    {
        reveal(CharacterInformation::decoding_part_5);
        reveal(CharacterInformation::encoding_part_5);
        u8::lemma_fixed_size(data, at, value.intelligence);
        u8::lemma_fixed_size(data, at + 1, value.dexterity);
        u8::lemma_fixed_size(data, at + 2, value.luck);
        u8::lemma_fixed_size(data, at + 3, value.character_number);
        u8::lemma_fixed_size(data, at + 4, value.hair_color);
        i16::lemma_fixed_size(data, at + 5, value.b_is_changed_char);
        i32::lemma_fixed_size(data, at + 23, value.deletion_reverse_date);
    }

    /// What the fields from `robe_palette` to `sex` decode to.
    #[verifier::opaque]
    pub open spec fn decoding_part_6(data: Seq<u8>, at: int) -> Result<
        ((i32, i32, i32, Sex), nat),
        ConversionError,
    > {
        let robe_palette = i32::decoding(data, at, None);
        let at_character_slot_change_count = behind(at, robe_palette);
        let character_slot_change_count = i32::decoding(data, at_character_slot_change_count, None);
        let at_character_name_change_count = behind(
            at_character_slot_change_count,
            character_slot_change_count,
        );
        let character_name_change_count = i32::decoding(data, at_character_name_change_count, None);
        let at_sex = behind(at_character_name_change_count, character_name_change_count);
        let sex = Sex::decoding(data, at_sex, None);
        let behind_all = behind(at_sex, sex);
        if robe_palette is Err {
            Err(robe_palette->Err_0)
        } else if character_slot_change_count is Err {
            Err(character_slot_change_count->Err_0)
        } else if character_name_change_count is Err {
            Err(character_name_change_count->Err_0)
        } else if sex is Err {
            Err(sex->Err_0)
        } else {
            Ok(
                (
                    (
                        robe_palette->Ok_0.0,
                        character_slot_change_count->Ok_0.0,
                        character_name_change_count->Ok_0.0,
                        sex->Ok_0.0,
                    ),
                    (behind_all - at) as nat,
                ),
            )
        }
    }

    /// The wire form of the fields from `robe_palette` to `sex`.
    #[verifier::opaque]
    pub open spec fn encoding_part_6(value: CharacterInformationModel) -> Seq<u8> {
        i32::encoding(value.robe_palette, None)
            + i32::encoding(value.character_slot_change_count, None)
            + i32::encoding(value.character_name_change_count, None)
            + Sex::encoding(value.sex, None)
    }

    fn decode_part_6(byte_stream: &mut ByteStream) -> (result: Result<
        (i32, i32, i32, Sex),
        ConversionError,
    >)
        ensures
            final(byte_stream).data() == old(byte_stream).data(),
            final(byte_stream).version() == old(byte_stream).version(),
            match Self::decoding_part_6(old(byte_stream).data(), old(byte_stream).offset() as int) {
                Ok((value, length)) => {
                    &&& result is Ok
                    &&& result->Ok_0.0.model() == value.0
                    &&& result->Ok_0.1.model() == value.1
                    &&& result->Ok_0.2.model() == value.2
                    &&& result->Ok_0.3.model() == value.3
                    &&& final(byte_stream).offset() == old(byte_stream).offset() + length
                },
                Err(error) => {
                    &&& result is Err
                    &&& result->Err_0 == error
                    &&& final(byte_stream).offset() == old(byte_stream).offset()
                },
            },
    {
        proof {
            reveal(CharacterInformation::decoding_part_6);
        }
        let mut cursor = byte_stream.fork();
        let robe_palette = i32::from_bytes(&mut cursor, None)?;
        let character_slot_change_count = i32::from_bytes(&mut cursor, None)?;
        let character_name_change_count = i32::from_bytes(&mut cursor, None)?;
        let sex = Sex::from_bytes(&mut cursor, None)?;
        byte_stream.follow(&cursor);
        Ok((robe_palette, character_slot_change_count, character_name_change_count, sex))
    }

    fn encode_part_6(&self) -> (bytes: Vec<u8>)
        ensures
            bytes@ == Self::encoding_part_6(self.model()),
    {
        proof {
            reveal(CharacterInformation::encoding_part_6);
        }
        let mut bytes = self.robe_palette.to_bytes(None);
        let mut piece = self.character_slot_change_count.to_bytes(None);
        bytes.append(&mut piece);
        let mut piece = self.character_name_change_count.to_bytes(None);
        bytes.append(&mut piece);
        let mut piece = self.sex.to_bytes(None);
        bytes.append(&mut piece);
        bytes
    }

    #[verifier::rlimit(50)]
    proof fn lemma_round_trip_part_6(value: CharacterInformationModel, data: Seq<u8>, at: int)
        requires
            holds_at(data, at, Self::encoding_part_6(value)),
        ensures
            Self::decoding_part_6(data, at) == Ok::<((i32, i32, i32, Sex), nat), ConversionError>(
                (
                    (
                        value.robe_palette,
                        value.character_slot_change_count,
                        value.character_name_change_count,
                        value.sex,
                    ),
                    Self::encoding_part_6(value).len(),
                ),
            ),
    {
        reveal(CharacterInformation::decoding_part_6);
        reveal(CharacterInformation::encoding_part_6);
        let piece_0 = i32::encoding(value.robe_palette, None);
        let piece_1 = i32::encoding(value.character_slot_change_count, None);
        let piece_2 = i32::encoding(value.character_name_change_count, None);
        let piece_3 = Sex::encoding(value.sex, None);
        let front_1 = piece_0;
        let front_2 = front_1 + piece_1;
        let front_3 = front_2 + piece_2;
        lemma_holds_at_split(data, at, front_3, piece_3);
        lemma_holds_at_split(data, at, front_2, piece_2);
        lemma_holds_at_split(data, at, front_1, piece_1);
        i32::lemma_round_trip(value.robe_palette, None, data, at);
        i32::lemma_round_trip(value.character_slot_change_count, None, data, at + front_1.len());
        i32::lemma_round_trip(value.character_name_change_count, None, data, at + front_2.len());
        Sex::lemma_round_trip(value.sex, None, data, at + front_3.len());
    }

    proof fn lemma_size_part_6(data: Seq<u8>, at: int, value: CharacterInformationModel)
        ensures
            Self::decoding_part_6(data, at) matches Ok((_, length)) ==> length == 13,
            Self::encoding_part_6(value).len() == 13,
    {
        reveal(CharacterInformation::decoding_part_6);
        reveal(CharacterInformation::encoding_part_6);
        i32::lemma_fixed_size(data, at, value.robe_palette);
        i32::lemma_fixed_size(data, at + 4, value.character_slot_change_count);
        i32::lemma_fixed_size(data, at + 8, value.character_name_change_count);
        Sex::lemma_fixed_size(data, at + 12, value.sex);
    }
}

impl ByteConvertable for CharacterInformation {
    type Model = CharacterInformationModel;

    open spec fn model(&self) -> CharacterInformationModel {
        CharacterInformationModel {
            character_id: self.character_id.model(),
            experience: self.experience.model(),
            money: self.money.model(),
            job_experience: self.job_experience.model(),
            jop_level: self.jop_level.model(),
            body_state: self.body_state.model(),
            health_state: self.health_state.model(),
            effect_state: self.effect_state.model(),
            virtue: self.virtue.model(),
            honor: self.honor.model(),
            jobpoint: self.jobpoint.model(),
            health_points: self.health_points.model(),
            maximum_health_points: self.maximum_health_points.model(),
            spell_points: self.spell_points.model(),
            maximum_spell_points: self.maximum_spell_points.model(),
            movement_speed: self.movement_speed.model(),
            job: self.job.model(),
            head: self.head.model(),
            body: self.body.model(),
            weapon: self.weapon.model(),
            level: self.level.model(),
            sp_point: self.sp_point.model(),
            accessory: self.accessory.model(),
            shield: self.shield.model(),
            accessory2: self.accessory2.model(),
            accessory3: self.accessory3.model(),
            head_palette: self.head_palette.model(),
            body_palette: self.body_palette.model(),
            name: self.name.model(),
            strength: self.strength.model(),
            agility: self.agility.model(),
            vit: self.vit.model(),
            intelligence: self.intelligence.model(),
            dexterity: self.dexterity.model(),
            luck: self.luck.model(),
            character_number: self.character_number.model(),
            hair_color: self.hair_color.model(),
            b_is_changed_char: self.b_is_changed_char.model(),
            map_name: self.map_name.model(),
            deletion_reverse_date: self.deletion_reverse_date.model(),
            robe_palette: self.robe_palette.model(),
            character_slot_change_count: self.character_slot_change_count.model(),
            character_name_change_count: self.character_name_change_count.model(),
            sex: self.sex.model(),
        }
    }

    open spec fn accepts(length_hint: Option<usize>) -> bool {
        length_hint is None
    }

    #[verifier::opaque]
    open spec fn decoding(data: Seq<u8>, at: int, length_hint: Option<usize>) -> Result<
        (CharacterInformationModel, nat),
        ConversionError,
    > {
        let part_1 = Self::decoding_part_1(data, at);
        let at_part_2 = behind(at, part_1);
        let part_2 = Self::decoding_part_2(data, at_part_2);
        let at_part_3 = behind(at_part_2, part_2);
        let part_3 = Self::decoding_part_3(data, at_part_3);
        let at_part_4 = behind(at_part_3, part_3);
        let part_4 = Self::decoding_part_4(data, at_part_4);
        let at_part_5 = behind(at_part_4, part_4);
        let part_5 = Self::decoding_part_5(data, at_part_5);
        let at_part_6 = behind(at_part_5, part_5);
        let part_6 = Self::decoding_part_6(data, at_part_6);
        let behind_all = behind(at_part_6, part_6);
        if part_1 is Err {
            Err(part_1->Err_0)
        } else if part_2 is Err {
            Err(part_2->Err_0)
        } else if part_3 is Err {
            Err(part_3->Err_0)
        } else if part_4 is Err {
            Err(part_4->Err_0)
        } else if part_5 is Err {
            Err(part_5->Err_0)
        } else if part_6 is Err {
            Err(part_6->Err_0)
        } else {
            Ok(
                (
                    CharacterInformationModel {
                        character_id: part_1->Ok_0.0.0,
                        experience: part_1->Ok_0.0.1,
                        money: part_1->Ok_0.0.2,
                        job_experience: part_1->Ok_0.0.3,
                        jop_level: part_1->Ok_0.0.4,
                        body_state: part_1->Ok_0.0.5,
                        health_state: part_1->Ok_0.0.6,
                        effect_state: part_1->Ok_0.0.7,
                        virtue: part_2->Ok_0.0.0,
                        honor: part_2->Ok_0.0.1,
                        jobpoint: part_2->Ok_0.0.2,
                        health_points: part_2->Ok_0.0.3,
                        maximum_health_points: part_2->Ok_0.0.4,
                        spell_points: part_2->Ok_0.0.5,
                        maximum_spell_points: part_2->Ok_0.0.6,
                        movement_speed: part_2->Ok_0.0.7,
                        job: part_3->Ok_0.0.0,
                        head: part_3->Ok_0.0.1,
                        body: part_3->Ok_0.0.2,
                        weapon: part_3->Ok_0.0.3,
                        level: part_3->Ok_0.0.4,
                        sp_point: part_3->Ok_0.0.5,
                        accessory: part_3->Ok_0.0.6,
                        shield: part_3->Ok_0.0.7,
                        accessory2: part_4->Ok_0.0.0,
                        accessory3: part_4->Ok_0.0.1,
                        head_palette: part_4->Ok_0.0.2,
                        body_palette: part_4->Ok_0.0.3,
                        name: part_4->Ok_0.0.4,
                        strength: part_4->Ok_0.0.5,
                        agility: part_4->Ok_0.0.6,
                        vit: part_4->Ok_0.0.7,
                        intelligence: part_5->Ok_0.0.0,
                        dexterity: part_5->Ok_0.0.1,
                        luck: part_5->Ok_0.0.2,
                        character_number: part_5->Ok_0.0.3,
                        hair_color: part_5->Ok_0.0.4,
                        b_is_changed_char: part_5->Ok_0.0.5,
                        map_name: part_5->Ok_0.0.6,
                        deletion_reverse_date: part_5->Ok_0.0.7,
                        robe_palette: part_6->Ok_0.0.0,
                        character_slot_change_count: part_6->Ok_0.0.1,
                        character_name_change_count: part_6->Ok_0.0.2,
                        sex: part_6->Ok_0.0.3,
                    },
                    (behind_all - at) as nat,
                ),
            )
        }
    }

    open spec fn encodable(value: CharacterInformationModel, length_hint: Option<usize>) -> bool {
        &&& Self::encodable_part_4(value)
        &&& Self::encodable_part_5(value)
    }

    open spec fn faithful(value: CharacterInformationModel, length_hint: Option<usize>) -> bool {
        &&& String::faithful(value.name, Some(24))
        &&& String::faithful(value.map_name, Some(16))
    }

    #[verifier::opaque]
    open spec fn encoding(value: CharacterInformationModel, length_hint: Option<usize>) -> Seq<u8> {
        Self::encoding_part_1(value)
            + Self::encoding_part_2(value)
            + Self::encoding_part_3(value)
            + Self::encoding_part_4(value)
            + Self::encoding_part_5(value)
            + Self::encoding_part_6(value)
    }

    fn from_bytes(byte_stream: &mut ByteStream, length_hint: Option<usize>) -> (result: Result<
        Self,
        ConversionError,
    >) {
        proof {
            reveal(<CharacterInformation as ByteConvertable>::decoding);
        }
        let mut cursor = byte_stream.fork();
        let (
            character_id,
            experience,
            money,
            job_experience,
            jop_level,
            body_state,
            health_state,
            effect_state,
        ) = Self::decode_part_1(
            &mut cursor,
        )?;
        let (
            virtue,
            honor,
            jobpoint,
            health_points,
            maximum_health_points,
            spell_points,
            maximum_spell_points,
            movement_speed,
        ) = Self::decode_part_2(
            &mut cursor,
        )?;
        let (job, head, body, weapon, level, sp_point, accessory, shield) = Self::decode_part_3(
            &mut cursor,
        )?;
        let (
            accessory2,
            accessory3,
            head_palette,
            body_palette,
            name,
            strength,
            agility,
            vit,
        ) = Self::decode_part_4(
            &mut cursor,
        )?;
        let (
            intelligence,
            dexterity,
            luck,
            character_number,
            hair_color,
            b_is_changed_char,
            map_name,
            deletion_reverse_date,
        ) = Self::decode_part_5(
            &mut cursor,
        )?;
        let (
            robe_palette,
            character_slot_change_count,
            character_name_change_count,
            sex,
        ) = Self::decode_part_6(
            &mut cursor,
        )?;
        byte_stream.follow(&cursor);
        Ok(CharacterInformation {
            character_id,
            experience,
            money,
            job_experience,
            jop_level,
            body_state,
            health_state,
            effect_state,
            virtue,
            honor,
            jobpoint,
            health_points,
            maximum_health_points,
            spell_points,
            maximum_spell_points,
            movement_speed,
            job,
            head,
            body,
            weapon,
            level,
            sp_point,
            accessory,
            shield,
            accessory2,
            accessory3,
            head_palette,
            body_palette,
            name,
            strength,
            agility,
            vit,
            intelligence,
            dexterity,
            luck,
            character_number,
            hair_color,
            b_is_changed_char,
            map_name,
            deletion_reverse_date,
            robe_palette,
            character_slot_change_count,
            character_name_change_count,
            sex,
        })
    }

    fn to_bytes(&self, length_hint: Option<usize>) -> (bytes: Vec<u8>) {
        proof {
            reveal(<CharacterInformation as ByteConvertable>::encoding);
        }
        let mut bytes = self.encode_part_1();
        let mut piece = self.encode_part_2();
        bytes.append(&mut piece);
        let mut piece = self.encode_part_3();
        bytes.append(&mut piece);
        let mut piece = self.encode_part_4();
        bytes.append(&mut piece);
        let mut piece = self.encode_part_5();
        bytes.append(&mut piece);
        let mut piece = self.encode_part_6();
        bytes.append(&mut piece);
        bytes
    }

    proof fn lemma_round_trip(
        value: CharacterInformationModel,
        length_hint: Option<usize>,
        data: Seq<u8>,
        at: int,
    ) {
        reveal(<CharacterInformation as ByteConvertable>::decoding);
        reveal(<CharacterInformation as ByteConvertable>::encoding);
        let piece_0 = Self::encoding_part_1(value);
        let piece_1 = Self::encoding_part_2(value);
        let piece_2 = Self::encoding_part_3(value);
        let piece_3 = Self::encoding_part_4(value);
        let piece_4 = Self::encoding_part_5(value);
        let piece_5 = Self::encoding_part_6(value);
        let front_1 = piece_0;
        let front_2 = front_1 + piece_1;
        let front_3 = front_2 + piece_2;
        let front_4 = front_3 + piece_3;
        let front_5 = front_4 + piece_4;
        lemma_holds_at_split(data, at, front_5, piece_5);
        lemma_holds_at_split(data, at, front_4, piece_4);
        lemma_holds_at_split(data, at, front_3, piece_3);
        lemma_holds_at_split(data, at, front_2, piece_2);
        lemma_holds_at_split(data, at, front_1, piece_1);
        Self::lemma_round_trip_part_1(value, data, at);
        Self::lemma_round_trip_part_2(value, data, at + front_1.len());
        Self::lemma_round_trip_part_3(value, data, at + front_2.len());
        Self::lemma_round_trip_part_4(value, data, at + front_3.len());
        Self::lemma_round_trip_part_5(value, data, at + front_4.len());
        Self::lemma_round_trip_part_6(value, data, at + front_5.len());
    }
}

impl FixedByteSize for CharacterInformation {
    open spec fn size() -> nat {
        175
    }

    fn size_in_bytes() -> (size: usize) {
        175
    }

    proof fn lemma_fixed_size(data: Seq<u8>, at: int, value: CharacterInformationModel) {
        reveal(<CharacterInformation as ByteConvertable>::decoding);
        reveal(<CharacterInformation as ByteConvertable>::encoding);
        assert(Self::size() == 175);
        Self::lemma_size_part_1(data, at, value);
        Self::lemma_size_part_2(data, at + 40, value);
        Self::lemma_size_part_3(data, at + 84, value);
        Self::lemma_size_part_4(data, at + 100, value);
        Self::lemma_size_part_5(data, at + 135, value);
        Self::lemma_size_part_6(data, at + 162, value);
    }
}

/// Sent by the client to the character server.
/// Requests a list of every character associated with the account.
#[derive(Clone, Copy, Debug)]
pub struct RequestCharacterListPacket {}

impl RequestCharacterListPacket {
    /// The packet that [`new`](Self::new) makes.
    pub open spec fn made() -> RequestCharacterListPacket {
        RequestCharacterListPacket {}
    }

    pub fn new() -> (packet: Self)
        ensures
            packet.model() == Self::made(),
    {
        RequestCharacterListPacket {}
    }
}

impl Packet for RequestCharacterListPacket {
    type Model = RequestCharacterListPacket;

    const PACKET_NAME: &'static str = "RequestCharacterListPacket";

    const IS_PING: bool = false;

    open spec fn model(&self) -> RequestCharacterListPacket {
        *self
    }

    open spec fn packet_header() -> u16 {
        0x09a1
    }

    #[verifier::opaque]
    open spec fn payload_decoding(data: Seq<u8>, at: int) -> Result<
        (RequestCharacterListPacket, nat),
        ConversionError,
    > {
        Ok((RequestCharacterListPacket {}, 0))
    }

    open spec fn encodable(value: RequestCharacterListPacket) -> bool {
        true
    }

    #[verifier::opaque]
    open spec fn payload_encoding(value: RequestCharacterListPacket) -> Seq<u8> {
        Seq::empty()
    }

    fn header() -> (header: u16) {
        0x09a1
    }

    fn payload_from_bytes(byte_stream: &mut ByteStream) -> (result: Result<
        Self,
        ConversionError,
    >) {
        proof {
            reveal(<RequestCharacterListPacket as Packet>::payload_decoding);
        }
        Ok(RequestCharacterListPacket {})
    }

    fn payload_to_bytes(&self) -> (bytes: Vec<u8>) {
        proof {
            reveal(<RequestCharacterListPacket as Packet>::payload_encoding);
        }
        Vec::new()
    }

    proof fn lemma_payload_round_trip(value: RequestCharacterListPacket, data: Seq<u8>, at: int) {
        reveal(<RequestCharacterListPacket as Packet>::payload_decoding);
        reveal(<RequestCharacterListPacket as Packet>::payload_encoding);
    }
}

/// Sent by the character server as a response to [RequestCharacterListPacket]
/// succeeding. Provides the requested list of character information.
#[derive(Clone, Debug)]
pub struct RequestCharacterListSuccessPacket {
    pub packet_length: u16,
    pub character_information: Vec<CharacterInformation>,
}

/// What a [`RequestCharacterListSuccessPacket`] stands for.
pub struct RequestCharacterListSuccessPacketModel {
    pub packet_length: u16,
    pub character_information: Seq<CharacterInformationModel>,
}

impl Packet for RequestCharacterListSuccessPacket {
    type Model = RequestCharacterListSuccessPacketModel;

    const PACKET_NAME: &'static str = "RequestCharacterListSuccessPacket";

    const IS_PING: bool = false;

    open spec fn model(&self) -> RequestCharacterListSuccessPacketModel {
        RequestCharacterListSuccessPacketModel {
            packet_length: self.packet_length.model(),
            character_information: models(self.character_information@),
        }
    }

    open spec fn packet_header() -> u16 {
        0x0b72
    }

    #[verifier::opaque]
    open spec fn payload_decoding(data: Seq<u8>, at: int) -> Result<
        (RequestCharacterListSuccessPacketModel, nat),
        ConversionError,
    > {
        let packet_length = u16::decoding(data, at, None);
        let end = at - 2 + packet_length->Ok_0.0;
        let frame = data.take(end);
        let at_character_information = behind(at, packet_length);
        let character_information = repeated_decoding::<CharacterInformation>(
            frame,
            at_character_information,
            whole_count::<CharacterInformation>(packet_length->Ok_0.0 - 4)->Some_0,
        );
        let behind_all = behind(at_character_information, character_information);
        if packet_length is Err {
            Err(packet_length->Err_0)
        } else if packet_length->Ok_0.0 < 4 {
            Err(ConversionError::Invalid)
        } else if end > data.len() {
            Err(ConversionError::Incomplete)
        } else if whole_count::<CharacterInformation>(packet_length->Ok_0.0 - 4) is None
            || character_information is Err
            || behind_all != end {
            Err(ConversionError::Invalid)
        } else {
            Ok(
                (
                    RequestCharacterListSuccessPacketModel {
                        packet_length: packet_length->Ok_0.0,
                        character_information: character_information->Ok_0.0,
                    },
                    (behind_all - at) as nat,
                ),
            )
        }
    }

    open spec fn encodable(value: RequestCharacterListSuccessPacketModel) -> bool {
        &&& all_encodable::<CharacterInformation>(value.character_information)
        &&& value.packet_length == 2 + Self::payload_encoding(value).len()
    }

    open spec fn faithful(value: RequestCharacterListSuccessPacketModel) -> bool {
        all_faithful::<CharacterInformation>(value.character_information)
    }

    #[verifier::opaque]
    open spec fn payload_encoding(value: RequestCharacterListSuccessPacketModel) -> Seq<u8> {
        u16::encoding(value.packet_length, None)
            + repeated_encoding::<CharacterInformation>(value.character_information)
    }

    fn header() -> (header: u16) {
        0x0b72
    }

    #[verifier::spinoff_prover]
    #[verifier::rlimit(100)]
    fn payload_from_bytes(byte_stream: &mut ByteStream) -> (result: Result<
        Self,
        ConversionError,
    >) {
        proof {
            reveal(<RequestCharacterListSuccessPacket as Packet>::payload_decoding);
        }
        let mut cursor = byte_stream.fork();
        let packet_length = u16::from_bytes(&mut cursor, None)?;
        if packet_length < 4 {
            return Err(ConversionError::Invalid);
        }
        if cursor.remaining_length() < (packet_length - 4) as usize {
            return Err(ConversionError::Incomplete);
        }
        let end = cursor.get_offset() + (packet_length - 4) as usize;
        let mut frame = cursor.frame(end);
        let count = match count_whole::<CharacterInformation>((packet_length - 4) as usize) {
            Some(count) => count,
            None => return Err(ConversionError::Invalid),
        };
        let character_information = match decode_repeated::<CharacterInformation>(
            &mut frame,
            count,
        ) {
            Ok(value) => value,
            Err(_) => return Err(ConversionError::Invalid),
        };
        if !frame.is_empty() {
            return Err(ConversionError::Invalid);
        }
        byte_stream.follow(&frame);
        Ok(RequestCharacterListSuccessPacket { packet_length, character_information })
    }

    fn payload_to_bytes(&self) -> (bytes: Vec<u8>) {
        proof {
            reveal(<RequestCharacterListSuccessPacket as Packet>::payload_encoding);
        }
        let mut bytes = self.packet_length.to_bytes(None);
        let mut piece = encode_repeated::<CharacterInformation>(&self.character_information);
        bytes.append(&mut piece);
        bytes
    }

    #[verifier::spinoff_prover]
    #[verifier::rlimit(100)]
    proof fn lemma_payload_round_trip(
        value: RequestCharacterListSuccessPacketModel,
        data: Seq<u8>,
        at: int,
    ) {
        reveal(<RequestCharacterListSuccessPacket as Packet>::payload_decoding);
        reveal(<RequestCharacterListSuccessPacket as Packet>::payload_encoding);
        let piece_0 = u16::encoding(value.packet_length, None);
        let piece_1 = repeated_encoding::<CharacterInformation>(value.character_information);
        let front_1 = piece_0;
        lemma_holds_at_split(data, at, front_1, piece_1);
        lemma_holds_at_bounds(data, at, Self::payload_encoding(value));
        let end = at - 2 + value.packet_length;
        let frame = data.take(end);
        u16::lemma_round_trip(value.packet_length, None, data, at);
        lemma_holds_at_take(data, end, at + front_1.len(), piece_1);
        lemma_repeated_size::<CharacterInformation>(
            frame,
            at + front_1.len(),
            value.character_information,
        );
        assert(CharacterInformation::size() == 175);
        lemma_whole_count::<CharacterInformation>(value.character_information.len());
        lemma_repeated_round_trip::<CharacterInformation>(
            value.character_information,
            frame,
            at + front_1.len(),
        );
    }
}

impl LengthPrefixed for RequestCharacterListSuccessPacket {
    open spec fn announced_length(value: RequestCharacterListSuccessPacketModel) -> u16 {
        value.packet_length
    }

    proof fn lemma_exact_length(data: Seq<u8>, at: int) {
        reveal(<RequestCharacterListSuccessPacket as Packet>::payload_decoding);
    }
}

/// Sent by the client to the character server when the player tries to create
/// a new character.
/// Attempts to create a new character in an empty slot using the provided
/// information.
#[derive(Clone, Debug)]
pub struct CreateCharacterPacket {
    pub name: String,
    pub slot: u8,
    pub hair_color: u16,
    pub hair_style: u16,
    pub start_job: u16,
    pub unknown: [u8; 2],
    pub sex: Sex,
}

/// What a [`CreateCharacterPacket`] stands for.
pub struct CreateCharacterPacketModel {
    pub name: Seq<char>,
    pub slot: u8,
    pub hair_color: u16,
    pub hair_style: u16,
    pub start_job: u16,
    pub unknown: [u8; 2],
    pub sex: Sex,
}

impl CreateCharacterPacket {
    /// The packet that [`new`](Self::new) makes.
    pub open spec fn made(
        name: Seq<char>,
        slot: u8,
        hair_color: u16,
        hair_style: u16,
        start_job: u16,
        sex: Sex,
    ) -> CreateCharacterPacketModel {
        CreateCharacterPacketModel {
            name,
            slot,
            hair_color,
            hair_style,
            start_job,
            unknown: zeroed::<2>(),
            sex,
        }
    }

    pub fn new(
        name: String,
        slot: u8,
        hair_color: u16,
        hair_style: u16,
        start_job: u16,
        sex: Sex,
    ) -> (packet: Self)
        ensures
            packet.model() == Self::made(
                name.model(),
                slot.model(),
                hair_color.model(),
                hair_style.model(),
                start_job.model(),
                sex.model(),
            ),
    {
        let packet = CreateCharacterPacket {
            name,
            slot,
            hair_color,
            hair_style,
            start_job,
            unknown: [0; 2],
            sex,
        };
        proof {
            lemma_zeroed(packet.unknown);
        }
        packet
    }
}

impl Packet for CreateCharacterPacket {
    type Model = CreateCharacterPacketModel;

    const PACKET_NAME: &'static str = "CreateCharacterPacket";

    const IS_PING: bool = false;

    open spec fn model(&self) -> CreateCharacterPacketModel {
        CreateCharacterPacketModel {
            name: self.name.model(),
            slot: self.slot.model(),
            hair_color: self.hair_color.model(),
            hair_style: self.hair_style.model(),
            start_job: self.start_job.model(),
            unknown: self.unknown.model(),
            sex: self.sex.model(),
        }
    }

    open spec fn packet_header() -> u16 {
        0x0a39
    }

    #[verifier::opaque]
    open spec fn payload_decoding(data: Seq<u8>, at: int) -> Result<
        (CreateCharacterPacketModel, nat),
        ConversionError,
    > {
        let name = String::decoding(data, at, Some(24));
        let at_slot = behind(at, name);
        let slot = u8::decoding(data, at_slot, None);
        let at_hair_color = behind(at_slot, slot);
        let hair_color = u16::decoding(data, at_hair_color, None);
        let at_hair_style = behind(at_hair_color, hair_color);
        let hair_style = u16::decoding(data, at_hair_style, None);
        let at_start_job = behind(at_hair_style, hair_style);
        let start_job = u16::decoding(data, at_start_job, None);
        let at_unknown = behind(at_start_job, start_job);
        let unknown = <[u8; 2]>::decoding(data, at_unknown, None);
        let at_sex = behind(at_unknown, unknown);
        let sex = Sex::decoding(data, at_sex, None);
        let behind_all = behind(at_sex, sex);
        if name is Err {
            Err(name->Err_0)
        } else if slot is Err {
            Err(slot->Err_0)
        } else if hair_color is Err {
            Err(hair_color->Err_0)
        } else if hair_style is Err {
            Err(hair_style->Err_0)
        } else if start_job is Err {
            Err(start_job->Err_0)
        } else if unknown is Err {
            Err(unknown->Err_0)
        } else if sex is Err {
            Err(sex->Err_0)
        } else {
            Ok(
                (
                    CreateCharacterPacketModel {
                        name: name->Ok_0.0,
                        slot: slot->Ok_0.0,
                        hair_color: hair_color->Ok_0.0,
                        hair_style: hair_style->Ok_0.0,
                        start_job: start_job->Ok_0.0,
                        unknown: unknown->Ok_0.0,
                        sex: sex->Ok_0.0,
                    },
                    (behind_all - at) as nat,
                ),
            )
        }
    }

    open spec fn encodable(value: CreateCharacterPacketModel) -> bool {
        String::encodable(value.name, Some(24))
    }

    open spec fn faithful(value: CreateCharacterPacketModel) -> bool {
        String::faithful(value.name, Some(24))
    }

    #[verifier::opaque]
    open spec fn payload_encoding(value: CreateCharacterPacketModel) -> Seq<u8> {
        String::encoding(value.name, Some(24))
            + u8::encoding(value.slot, None)
            + u16::encoding(value.hair_color, None)
            + u16::encoding(value.hair_style, None)
            + u16::encoding(value.start_job, None)
            + <[u8; 2]>::encoding(value.unknown, None)
            + Sex::encoding(value.sex, None)
    }

    fn header() -> (header: u16) {
        0x0a39
    }

    fn payload_from_bytes(byte_stream: &mut ByteStream) -> (result: Result<
        Self,
        ConversionError,
    >) {
        proof {
            reveal(<CreateCharacterPacket as Packet>::payload_decoding);
        }
        let mut cursor = byte_stream.fork();
        let name = String::from_bytes(&mut cursor, Some(24))?;
        let slot = u8::from_bytes(&mut cursor, None)?;
        let hair_color = u16::from_bytes(&mut cursor, None)?;
        let hair_style = u16::from_bytes(&mut cursor, None)?;
        let start_job = u16::from_bytes(&mut cursor, None)?;
        let unknown = <[u8; 2]>::from_bytes(&mut cursor, None)?;
        let sex = Sex::from_bytes(&mut cursor, None)?;
        byte_stream.follow(&cursor);
        Ok(CreateCharacterPacket {
            name,
            slot,
            hair_color,
            hair_style,
            start_job,
            unknown,
            sex,
        })
    }

    fn payload_to_bytes(&self) -> (bytes: Vec<u8>) {
        proof {
            reveal(<CreateCharacterPacket as Packet>::payload_encoding);
        }
        let mut bytes = self.name.to_bytes(Some(24));
        let mut piece = self.slot.to_bytes(None);
        bytes.append(&mut piece);
        let mut piece = self.hair_color.to_bytes(None);
        bytes.append(&mut piece);
        let mut piece = self.hair_style.to_bytes(None);
        bytes.append(&mut piece);
        let mut piece = self.start_job.to_bytes(None);
        bytes.append(&mut piece);
        let mut piece = self.unknown.to_bytes(None);
        bytes.append(&mut piece);
        let mut piece = self.sex.to_bytes(None);
        bytes.append(&mut piece);
        bytes
    }

    proof fn lemma_payload_round_trip(value: CreateCharacterPacketModel, data: Seq<u8>, at: int) {
        reveal(<CreateCharacterPacket as Packet>::payload_decoding);
        reveal(<CreateCharacterPacket as Packet>::payload_encoding);
        let piece_0 = String::encoding(value.name, Some(24));
        let piece_1 = u8::encoding(value.slot, None);
        let piece_2 = u16::encoding(value.hair_color, None);
        let piece_3 = u16::encoding(value.hair_style, None);
        let piece_4 = u16::encoding(value.start_job, None);
        let piece_5 = <[u8; 2]>::encoding(value.unknown, None);
        let piece_6 = Sex::encoding(value.sex, None);
        let front_1 = piece_0;
        let front_2 = front_1 + piece_1;
        let front_3 = front_2 + piece_2;
        let front_4 = front_3 + piece_3;
        let front_5 = front_4 + piece_4;
        let front_6 = front_5 + piece_5;
        lemma_holds_at_split(data, at, front_6, piece_6);
        lemma_holds_at_split(data, at, front_5, piece_5);
        lemma_holds_at_split(data, at, front_4, piece_4);
        lemma_holds_at_split(data, at, front_3, piece_3);
        lemma_holds_at_split(data, at, front_2, piece_2);
        lemma_holds_at_split(data, at, front_1, piece_1);
        String::lemma_round_trip(value.name, Some(24), data, at);
        u8::lemma_round_trip(value.slot, None, data, at + front_1.len());
        u16::lemma_round_trip(value.hair_color, None, data, at + front_2.len());
        u16::lemma_round_trip(value.hair_style, None, data, at + front_3.len());
        u16::lemma_round_trip(value.start_job, None, data, at + front_4.len());
        <[u8; 2]>::lemma_round_trip(value.unknown, None, data, at + front_5.len());
        Sex::lemma_round_trip(value.sex, None, data, at + front_6.len());
    }
}

#[derive(Clone, Copy, Debug, PartialEq, Eq, Structural)]
pub enum CharacterCreationFailedReason {
    CharacterNameAlreadyUsed,
    NotOldEnough,
    NotAllowedToUseSlot,
    CharacterCerationFailed,
}

impl CharacterCreationFailedReason {
    /// The number that stands for a variant on the wire.
    pub open spec fn code(self) -> u8 {
        match self {
            CharacterCreationFailedReason::CharacterNameAlreadyUsed => 0,
            CharacterCreationFailedReason::NotOldEnough => 1,
            CharacterCreationFailedReason::NotAllowedToUseSlot => 3,
            CharacterCreationFailedReason::CharacterCerationFailed => 255,
        }
    }

    /// The variant that a number stands for.
    pub open spec fn of_code(code: u8) -> Option<CharacterCreationFailedReason> {
        if code == 0 {
            Some(CharacterCreationFailedReason::CharacterNameAlreadyUsed)
        } else if code == 1 {
            Some(CharacterCreationFailedReason::NotOldEnough)
        } else if code == 3 {
            Some(CharacterCreationFailedReason::NotAllowedToUseSlot)
        } else if code == 255 {
            Some(CharacterCreationFailedReason::CharacterCerationFailed)
        } else {
            None
        }
    }
}

impl ByteConvertable for CharacterCreationFailedReason {
    type Model = CharacterCreationFailedReason;

    open spec fn model(&self) -> CharacterCreationFailedReason {
        *self
    }

    open spec fn accepts(length_hint: Option<usize>) -> bool {
        length_hint is None
    }

    open spec fn decoding(data: Seq<u8>, at: int, length_hint: Option<usize>) -> Result<
        (CharacterCreationFailedReason, nat),
        ConversionError,
    > {
        match u8::decoding(data, at, None) {
            Ok((code, length)) => match CharacterCreationFailedReason::of_code(code) {
                Some(value) => Ok((value, length)),
                None => Err(ConversionError::Invalid),
            },
            Err(error) => Err(error),
        }
    }

    open spec fn encodable(
        value: CharacterCreationFailedReason,
        length_hint: Option<usize>,
    ) -> bool {
        true
    }

    open spec fn encoding(
        value: CharacterCreationFailedReason,
        length_hint: Option<usize>,
    ) -> Seq<u8> {
        u8::encoding(value.code(), None)
    }

    fn from_bytes(byte_stream: &mut ByteStream, length_hint: Option<usize>) -> (result: Result<
        Self,
        ConversionError,
    >) {
        let mut cursor = byte_stream.fork();
        let code = u8::from_bytes(&mut cursor, None)?;
        let value = match code {
            0 => CharacterCreationFailedReason::CharacterNameAlreadyUsed,
            1 => CharacterCreationFailedReason::NotOldEnough,
            3 => CharacterCreationFailedReason::NotAllowedToUseSlot,
            255 => CharacterCreationFailedReason::CharacterCerationFailed,
            _ => return Err(ConversionError::Invalid),
        };
        byte_stream.follow(&cursor);
        Ok(value)
    }

    fn to_bytes(&self, length_hint: Option<usize>) -> (bytes: Vec<u8>) {
        let code: u8 = match self {
            CharacterCreationFailedReason::CharacterNameAlreadyUsed => 0,
            CharacterCreationFailedReason::NotOldEnough => 1,
            CharacterCreationFailedReason::NotAllowedToUseSlot => 3,
            CharacterCreationFailedReason::CharacterCerationFailed => 255,
        };
        code.to_bytes(None)
    }

    proof fn lemma_round_trip(
        value: CharacterCreationFailedReason,
        length_hint: Option<usize>,
        data: Seq<u8>,
        at: int,
    ) {
        u8::lemma_round_trip(value.code(), None, data, at);
    }
}

impl FixedByteSize for CharacterCreationFailedReason {
    open spec fn size() -> nat {
        1
    }

    fn size_in_bytes() -> (size: usize) {
        1
    }

    proof fn lemma_fixed_size(data: Seq<u8>, at: int, value: CharacterCreationFailedReason) {
        assert(Self::size() == 1);
    }
}

/// Sent by the character server as a response to [CreateCharacterPacket]
/// failing. Provides a reason for the character creation failing.
#[derive(Clone, Copy, Debug)]
pub struct CharacterCreationFailedPacket {
    pub reason: CharacterCreationFailedReason,
}

impl Packet for CharacterCreationFailedPacket {
    type Model = CharacterCreationFailedPacket;

    const PACKET_NAME: &'static str = "CharacterCreationFailedPacket";

    const IS_PING: bool = false;

    open spec fn model(&self) -> CharacterCreationFailedPacket {
        *self
    }

    open spec fn packet_header() -> u16 {
        0x006e
    }

    #[verifier::opaque]
    open spec fn payload_decoding(data: Seq<u8>, at: int) -> Result<
        (CharacterCreationFailedPacket, nat),
        ConversionError,
    > {
        let reason = CharacterCreationFailedReason::decoding(data, at, None);
        let behind_all = behind(at, reason);
        if reason is Err {
            Err(reason->Err_0)
        } else {
            Ok(
                (
                    CharacterCreationFailedPacket {
                        reason: reason->Ok_0.0,
                    },
                    (behind_all - at) as nat,
                ),
            )
        }
    }

    open spec fn encodable(value: CharacterCreationFailedPacket) -> bool {
        true
    }

    #[verifier::opaque]
    open spec fn payload_encoding(value: CharacterCreationFailedPacket) -> Seq<u8> {
        CharacterCreationFailedReason::encoding(value.reason, None)
    }

    fn header() -> (header: u16) {
        0x006e
    }

    fn payload_from_bytes(byte_stream: &mut ByteStream) -> (result: Result<
        Self,
        ConversionError,
    >) {
        proof {
            reveal(<CharacterCreationFailedPacket as Packet>::payload_decoding);
        }
        let mut cursor = byte_stream.fork();
        let reason = CharacterCreationFailedReason::from_bytes(&mut cursor, None)?;
        byte_stream.follow(&cursor);
        Ok(CharacterCreationFailedPacket { reason })
    }

    fn payload_to_bytes(&self) -> (bytes: Vec<u8>) {
        proof {
            reveal(<CharacterCreationFailedPacket as Packet>::payload_encoding);
        }
        let bytes = self.reason.to_bytes(None);
        bytes
    }

    proof fn lemma_payload_round_trip(
        value: CharacterCreationFailedPacket,
        data: Seq<u8>,
        at: int,
    ) {
        reveal(<CharacterCreationFailedPacket as Packet>::payload_decoding);
        reveal(<CharacterCreationFailedPacket as Packet>::payload_encoding);
        let piece_0 = CharacterCreationFailedReason::encoding(value.reason, None);
        CharacterCreationFailedReason::lemma_round_trip(value.reason, None, data, at);
    }
}

/// Sent by the character server as a response to [CreateCharacterPacket]
/// succeeding. Provides all character information of the newly created
/// character.
#[derive(Clone, Debug)]
pub struct CreateCharacterSuccessPacket {
    pub character_information: CharacterInformation,
}

/// What a [`CreateCharacterSuccessPacket`] stands for.
pub struct CreateCharacterSuccessPacketModel {
    pub character_information: CharacterInformationModel,
}

impl Packet for CreateCharacterSuccessPacket {
    type Model = CreateCharacterSuccessPacketModel;

    const PACKET_NAME: &'static str = "CreateCharacterSuccessPacket";

    const IS_PING: bool = false;

    open spec fn model(&self) -> CreateCharacterSuccessPacketModel {
        CreateCharacterSuccessPacketModel {
            character_information: self.character_information.model(),
        }
    }

    open spec fn packet_header() -> u16 {
        0x0b6f
    }

    #[verifier::opaque]
    open spec fn payload_decoding(data: Seq<u8>, at: int) -> Result<
        (CreateCharacterSuccessPacketModel, nat),
        ConversionError,
    > {
        let character_information = CharacterInformation::decoding(data, at, None);
        let behind_all = behind(at, character_information);
        if character_information is Err {
            Err(character_information->Err_0)
        } else {
            Ok(
                (
                    CreateCharacterSuccessPacketModel {
                        character_information: character_information->Ok_0.0,
                    },
                    (behind_all - at) as nat,
                ),
            )
        }
    }

    open spec fn encodable(value: CreateCharacterSuccessPacketModel) -> bool {
        CharacterInformation::encodable(value.character_information, None)
    }

    open spec fn faithful(value: CreateCharacterSuccessPacketModel) -> bool {
        CharacterInformation::faithful(value.character_information, None)
    }

    #[verifier::opaque]
    open spec fn payload_encoding(value: CreateCharacterSuccessPacketModel) -> Seq<u8> {
        CharacterInformation::encoding(value.character_information, None)
    }

    fn header() -> (header: u16) {
        0x0b6f
    }

    #[verifier::rlimit(40)]
    fn payload_from_bytes(byte_stream: &mut ByteStream) -> (result: Result<
        Self,
        ConversionError,
    >) {
        proof {
            reveal(<CreateCharacterSuccessPacket as Packet>::payload_decoding);
        }
        let mut cursor = byte_stream.fork();
        let character_information = CharacterInformation::from_bytes(&mut cursor, None)?;
        byte_stream.follow(&cursor);
        Ok(CreateCharacterSuccessPacket { character_information })
    }

    fn payload_to_bytes(&self) -> (bytes: Vec<u8>) {
        proof {
            reveal(<CreateCharacterSuccessPacket as Packet>::payload_encoding);
        }
        let bytes = self.character_information.to_bytes(None);
        bytes
    }

    #[verifier::rlimit(40)]
    proof fn lemma_payload_round_trip(
        value: CreateCharacterSuccessPacketModel,
        data: Seq<u8>,
        at: int,
    ) {
        reveal(<CreateCharacterSuccessPacket as Packet>::payload_decoding);
        reveal(<CreateCharacterSuccessPacket as Packet>::payload_encoding);
        let piece_0 = CharacterInformation::encoding(value.character_information, None);
        CharacterInformation::lemma_round_trip(value.character_information, None, data, at);
    }
}

/// Sent by the client to the character server when the user tries to delete a
/// character.
/// Attempts to delete a character from the user account using the provided
/// information.
#[derive(Clone, Debug)]
pub struct DeleteCharacterPacket {
    pub character_id: CharacterId,
    /// This field can be used for email or date of birth, depending on the
    /// configuration of the character server.
    pub email: String,
    /// Ignored by rAthena
    pub unknown: [u8; 10],
}

/// What a [`DeleteCharacterPacket`] stands for.
pub struct DeleteCharacterPacketModel {
    pub character_id: CharacterId,
    pub email: Seq<char>,
    pub unknown: [u8; 10],
}

impl DeleteCharacterPacket {
    /// The packet that [`new`](Self::new) makes.
    pub open spec fn made(
        character_id: CharacterId,
        email: Seq<char>,
    ) -> DeleteCharacterPacketModel {
        DeleteCharacterPacketModel { character_id, email, unknown: zeroed::<10>() }
    }

    pub fn new(character_id: CharacterId, email: String) -> (packet: Self)
        ensures
            packet.model() == Self::made(character_id.model(), email.model()),
    {
        let packet = DeleteCharacterPacket { character_id, email, unknown: [0; 10] };
        proof {
            lemma_zeroed(packet.unknown);
        }
        packet
    }
}

impl Packet for DeleteCharacterPacket {
    type Model = DeleteCharacterPacketModel;

    const PACKET_NAME: &'static str = "DeleteCharacterPacket";

    const IS_PING: bool = false;

    open spec fn model(&self) -> DeleteCharacterPacketModel {
        DeleteCharacterPacketModel {
            character_id: self.character_id.model(),
            email: self.email.model(),
            unknown: self.unknown.model(),
        }
    }

    open spec fn packet_header() -> u16 {
        0x01fb
    }

    #[verifier::opaque]
    open spec fn payload_decoding(data: Seq<u8>, at: int) -> Result<
        (DeleteCharacterPacketModel, nat),
        ConversionError,
    > {
        let character_id = CharacterId::decoding(data, at, None);
        let at_email = behind(at, character_id);
        let email = String::decoding(data, at_email, Some(40));
        let at_unknown = behind(at_email, email);
        let unknown = <[u8; 10]>::decoding(data, at_unknown, None);
        let behind_all = behind(at_unknown, unknown);
        if character_id is Err {
            Err(character_id->Err_0)
        } else if email is Err {
            Err(email->Err_0)
        } else if unknown is Err {
            Err(unknown->Err_0)
        } else {
            Ok(
                (
                    DeleteCharacterPacketModel {
                        character_id: character_id->Ok_0.0,
                        email: email->Ok_0.0,
                        unknown: unknown->Ok_0.0,
                    },
                    (behind_all - at) as nat,
                ),
            )
        }
    }

    open spec fn encodable(value: DeleteCharacterPacketModel) -> bool {
        String::encodable(value.email, Some(40))
    }

    open spec fn faithful(value: DeleteCharacterPacketModel) -> bool {
        String::faithful(value.email, Some(40))
    }

    #[verifier::opaque]
    open spec fn payload_encoding(value: DeleteCharacterPacketModel) -> Seq<u8> {
        CharacterId::encoding(value.character_id, None)
            + String::encoding(value.email, Some(40))
            + <[u8; 10]>::encoding(value.unknown, None)
    }

    fn header() -> (header: u16) {
        0x01fb
    }

    fn payload_from_bytes(byte_stream: &mut ByteStream) -> (result: Result<
        Self,
        ConversionError,
    >) {
        proof {
            reveal(<DeleteCharacterPacket as Packet>::payload_decoding);
        }
        let mut cursor = byte_stream.fork();
        let character_id = CharacterId::from_bytes(&mut cursor, None)?;
        let email = String::from_bytes(&mut cursor, Some(40))?;
        let unknown = <[u8; 10]>::from_bytes(&mut cursor, None)?;
        byte_stream.follow(&cursor);
        Ok(DeleteCharacterPacket { character_id, email, unknown })
    }

    fn payload_to_bytes(&self) -> (bytes: Vec<u8>) {
        proof {
            reveal(<DeleteCharacterPacket as Packet>::payload_encoding);
        }
        let mut bytes = self.character_id.to_bytes(None);
        let mut piece = self.email.to_bytes(Some(40));
        bytes.append(&mut piece);
        let mut piece = self.unknown.to_bytes(None);
        bytes.append(&mut piece);
        bytes
    }

    proof fn lemma_payload_round_trip(value: DeleteCharacterPacketModel, data: Seq<u8>, at: int) {
        reveal(<DeleteCharacterPacket as Packet>::payload_decoding);
        reveal(<DeleteCharacterPacket as Packet>::payload_encoding);
        let piece_0 = CharacterId::encoding(value.character_id, None);
        let piece_1 = String::encoding(value.email, Some(40));
        let piece_2 = <[u8; 10]>::encoding(value.unknown, None);
        let front_1 = piece_0;
        let front_2 = front_1 + piece_1;
        lemma_holds_at_split(data, at, front_2, piece_2);
        lemma_holds_at_split(data, at, front_1, piece_1);
        CharacterId::lemma_round_trip(value.character_id, None, data, at);
        String::lemma_round_trip(value.email, Some(40), data, at + front_1.len());
        <[u8; 10]>::lemma_round_trip(value.unknown, None, data, at + front_2.len());
    }
}

#[derive(Clone, Copy, Debug, PartialEq, Eq, Structural)]
pub enum CharacterDeletionFailedReason {
    NotAllowed,
    CharacterNotFound,
    NotEligible,
}

impl CharacterDeletionFailedReason {
    /// The number that stands for a variant on the wire.
    pub open spec fn code(self) -> u8 {
        match self {
            CharacterDeletionFailedReason::NotAllowed => 0,
            CharacterDeletionFailedReason::CharacterNotFound => 1,
            CharacterDeletionFailedReason::NotEligible => 2,
        }
    }

    /// The variant that a number stands for.
    pub open spec fn of_code(code: u8) -> Option<CharacterDeletionFailedReason> {
        if code == 0 {
            Some(CharacterDeletionFailedReason::NotAllowed)
        } else if code == 1 {
            Some(CharacterDeletionFailedReason::CharacterNotFound)
        } else if code == 2 {
            Some(CharacterDeletionFailedReason::NotEligible)
        } else {
            None
        }
    }
}

impl ByteConvertable for CharacterDeletionFailedReason {
    type Model = CharacterDeletionFailedReason;

    open spec fn model(&self) -> CharacterDeletionFailedReason {
        *self
    }

    open spec fn accepts(length_hint: Option<usize>) -> bool {
        length_hint is None
    }

    open spec fn decoding(data: Seq<u8>, at: int, length_hint: Option<usize>) -> Result<
        (CharacterDeletionFailedReason, nat),
        ConversionError,
    > {
        match u8::decoding(data, at, None) {
            Ok((code, length)) => match CharacterDeletionFailedReason::of_code(code) {
                Some(value) => Ok((value, length)),
                None => Err(ConversionError::Invalid),
            },
            Err(error) => Err(error),
        }
    }

    open spec fn encodable(
        value: CharacterDeletionFailedReason,
        length_hint: Option<usize>,
    ) -> bool {
        true
    }

    open spec fn encoding(
        value: CharacterDeletionFailedReason,
        length_hint: Option<usize>,
    ) -> Seq<u8> {
        u8::encoding(value.code(), None)
    }

    fn from_bytes(byte_stream: &mut ByteStream, length_hint: Option<usize>) -> (result: Result<
        Self,
        ConversionError,
    >) {
        let mut cursor = byte_stream.fork();
        let code = u8::from_bytes(&mut cursor, None)?;
        let value = match code {
            0 => CharacterDeletionFailedReason::NotAllowed,
            1 => CharacterDeletionFailedReason::CharacterNotFound,
            2 => CharacterDeletionFailedReason::NotEligible,
            _ => return Err(ConversionError::Invalid),
        };
        byte_stream.follow(&cursor);
        Ok(value)
    }

    fn to_bytes(&self, length_hint: Option<usize>) -> (bytes: Vec<u8>) {
        let code: u8 = match self {
            CharacterDeletionFailedReason::NotAllowed => 0,
            CharacterDeletionFailedReason::CharacterNotFound => 1,
            CharacterDeletionFailedReason::NotEligible => 2,
        };
        code.to_bytes(None)
    }

    proof fn lemma_round_trip(
        value: CharacterDeletionFailedReason,
        length_hint: Option<usize>,
        data: Seq<u8>,
        at: int,
    ) {
        u8::lemma_round_trip(value.code(), None, data, at);
    }
}

impl FixedByteSize for CharacterDeletionFailedReason {
    open spec fn size() -> nat {
        1
    }

    fn size_in_bytes() -> (size: usize) {
        1
    }

    proof fn lemma_fixed_size(data: Seq<u8>, at: int, value: CharacterDeletionFailedReason) {
        assert(Self::size() == 1);
    }
}

/// Sent by the character server as a response to [DeleteCharacterPacket]
/// failing. Provides a reason for the character deletion failing.
#[derive(Clone, Copy, Debug)]
pub struct CharacterDeletionFailedPacket {
    pub reason: CharacterDeletionFailedReason,
}

impl Packet for CharacterDeletionFailedPacket {
    type Model = CharacterDeletionFailedPacket;

    const PACKET_NAME: &'static str = "CharacterDeletionFailedPacket";

    const IS_PING: bool = false;

    open spec fn model(&self) -> CharacterDeletionFailedPacket {
        *self
    }

    open spec fn packet_header() -> u16 {
        0x0070
    }

    #[verifier::opaque]
    open spec fn payload_decoding(data: Seq<u8>, at: int) -> Result<
        (CharacterDeletionFailedPacket, nat),
        ConversionError,
    > {
        let reason = CharacterDeletionFailedReason::decoding(data, at, None);
        let behind_all = behind(at, reason);
        if reason is Err {
            Err(reason->Err_0)
        } else {
            Ok(
                (
                    CharacterDeletionFailedPacket {
                        reason: reason->Ok_0.0,
                    },
                    (behind_all - at) as nat,
                ),
            )
        }
    }

    open spec fn encodable(value: CharacterDeletionFailedPacket) -> bool {
        true
    }

    #[verifier::opaque]
    open spec fn payload_encoding(value: CharacterDeletionFailedPacket) -> Seq<u8> {
        CharacterDeletionFailedReason::encoding(value.reason, None)
    }

    fn header() -> (header: u16) {
        0x0070
    }

    fn payload_from_bytes(byte_stream: &mut ByteStream) -> (result: Result<
        Self,
        ConversionError,
    >) {
        proof {
            reveal(<CharacterDeletionFailedPacket as Packet>::payload_decoding);
        }
        let mut cursor = byte_stream.fork();
        let reason = CharacterDeletionFailedReason::from_bytes(&mut cursor, None)?;
        byte_stream.follow(&cursor);
        Ok(CharacterDeletionFailedPacket { reason })
    }

    fn payload_to_bytes(&self) -> (bytes: Vec<u8>) {
        proof {
            reveal(<CharacterDeletionFailedPacket as Packet>::payload_encoding);
        }
        let bytes = self.reason.to_bytes(None);
        bytes
    }

    proof fn lemma_payload_round_trip(
        value: CharacterDeletionFailedPacket,
        data: Seq<u8>,
        at: int,
    ) {
        reveal(<CharacterDeletionFailedPacket as Packet>::payload_decoding);
        reveal(<CharacterDeletionFailedPacket as Packet>::payload_encoding);
        let piece_0 = CharacterDeletionFailedReason::encoding(value.reason, None);
        CharacterDeletionFailedReason::lemma_round_trip(value.reason, None, data, at);
    }
}

/// Sent by the character server as a response to [DeleteCharacterPacket]
/// succeeding.
#[derive(Clone, Copy, Debug)]
pub struct CharacterDeletionSuccessPacket {}

impl Packet for CharacterDeletionSuccessPacket {
    type Model = CharacterDeletionSuccessPacket;

    const PACKET_NAME: &'static str = "CharacterDeletionSuccessPacket";

    const IS_PING: bool = false;

    open spec fn model(&self) -> CharacterDeletionSuccessPacket {
        *self
    }

    open spec fn packet_header() -> u16 {
        0x006f
    }

    #[verifier::opaque]
    open spec fn payload_decoding(data: Seq<u8>, at: int) -> Result<
        (CharacterDeletionSuccessPacket, nat),
        ConversionError,
    > {
        Ok((CharacterDeletionSuccessPacket {}, 0))
    }

    open spec fn encodable(value: CharacterDeletionSuccessPacket) -> bool {
        true
    }

    #[verifier::opaque]
    open spec fn payload_encoding(value: CharacterDeletionSuccessPacket) -> Seq<u8> {
        Seq::empty()
    }

    fn header() -> (header: u16) {
        0x006f
    }

    fn payload_from_bytes(byte_stream: &mut ByteStream) -> (result: Result<
        Self,
        ConversionError,
    >) {
        proof {
            reveal(<CharacterDeletionSuccessPacket as Packet>::payload_decoding);
        }
        Ok(CharacterDeletionSuccessPacket {})
    }

    fn payload_to_bytes(&self) -> (bytes: Vec<u8>) {
        proof {
            reveal(<CharacterDeletionSuccessPacket as Packet>::payload_encoding);
        }
        Vec::new()
    }

    proof fn lemma_payload_round_trip(
        value: CharacterDeletionSuccessPacket,
        data: Seq<u8>,
        at: int,
    ) {
        reveal(<CharacterDeletionSuccessPacket as Packet>::payload_decoding);
        reveal(<CharacterDeletionSuccessPacket as Packet>::payload_encoding);
    }
}

/// Sent by the client to the character server when the user selects a
/// character. Attempts to select the character in the specified slot.
#[derive(Clone, Copy, Debug)]
pub struct SelectCharacterPacket {
    pub selected_slot: u8,
}

impl SelectCharacterPacket {
    /// The packet that [`new`](Self::new) makes.
    pub open spec fn made(selected_slot: u8) -> SelectCharacterPacket {
        SelectCharacterPacket { selected_slot }
    }

    pub fn new(selected_slot: u8) -> (packet: Self)
        ensures
            packet.model() == Self::made(selected_slot.model()),
    {
        let packet = SelectCharacterPacket { selected_slot };
        packet
    }
}

impl Packet for SelectCharacterPacket {
    type Model = SelectCharacterPacket;

    const PACKET_NAME: &'static str = "SelectCharacterPacket";

    const IS_PING: bool = false;

    open spec fn model(&self) -> SelectCharacterPacket {
        *self
    }

    open spec fn packet_header() -> u16 {
        0x0066
    }

    #[verifier::opaque]
    open spec fn payload_decoding(data: Seq<u8>, at: int) -> Result<
        (SelectCharacterPacket, nat),
        ConversionError,
    > {
        let selected_slot = u8::decoding(data, at, None);
        let behind_all = behind(at, selected_slot);
        if selected_slot is Err {
            Err(selected_slot->Err_0)
        } else {
            Ok(
                (
                    SelectCharacterPacket {
                        selected_slot: selected_slot->Ok_0.0,
                    },
                    (behind_all - at) as nat,
                ),
            )
        }
    }

    open spec fn encodable(value: SelectCharacterPacket) -> bool {
        true
    }

    #[verifier::opaque]
    open spec fn payload_encoding(value: SelectCharacterPacket) -> Seq<u8> {
        u8::encoding(value.selected_slot, None)
    }

    fn header() -> (header: u16) {
        0x0066
    }

    fn payload_from_bytes(byte_stream: &mut ByteStream) -> (result: Result<
        Self,
        ConversionError,
    >) {
        proof {
            reveal(<SelectCharacterPacket as Packet>::payload_decoding);
        }
        let mut cursor = byte_stream.fork();
        let selected_slot = u8::from_bytes(&mut cursor, None)?;
        byte_stream.follow(&cursor);
        Ok(SelectCharacterPacket { selected_slot })
    }

    fn payload_to_bytes(&self) -> (bytes: Vec<u8>) {
        proof {
            reveal(<SelectCharacterPacket as Packet>::payload_encoding);
        }
        let bytes = self.selected_slot.to_bytes(None);
        bytes
    }

    proof fn lemma_payload_round_trip(value: SelectCharacterPacket, data: Seq<u8>, at: int) {
        reveal(<SelectCharacterPacket as Packet>::payload_decoding);
        reveal(<SelectCharacterPacket as Packet>::payload_encoding);
        let piece_0 = u8::encoding(value.selected_slot, None);
        u8::lemma_round_trip(value.selected_slot, None, data, at);
    }
}

#[derive(Clone, Copy, Debug, PartialEq, Eq, Structural)]
pub enum CharacterSelectionFailedReason {
    RejectedFromServer,
}

impl CharacterSelectionFailedReason {
    /// The number that stands for a variant on the wire.
    pub open spec fn code(self) -> u8 {
        match self {
            CharacterSelectionFailedReason::RejectedFromServer => 0,
        }
    }

    /// The variant that a number stands for.
    pub open spec fn of_code(code: u8) -> Option<CharacterSelectionFailedReason> {
        if code == 0 {
            Some(CharacterSelectionFailedReason::RejectedFromServer)
        } else {
            None
        }
    }
}

impl ByteConvertable for CharacterSelectionFailedReason {
    type Model = CharacterSelectionFailedReason;

    open spec fn model(&self) -> CharacterSelectionFailedReason {
        *self
    }

    open spec fn accepts(length_hint: Option<usize>) -> bool {
        length_hint is None
    }

    open spec fn decoding(data: Seq<u8>, at: int, length_hint: Option<usize>) -> Result<
        (CharacterSelectionFailedReason, nat),
        ConversionError,
    > {
        match u8::decoding(data, at, None) {
            Ok((code, length)) => match CharacterSelectionFailedReason::of_code(code) {
                Some(value) => Ok((value, length)),
                None => Err(ConversionError::Invalid),
            },
            Err(error) => Err(error),
        }
    }

    open spec fn encodable(
        value: CharacterSelectionFailedReason,
        length_hint: Option<usize>,
    ) -> bool {
        true
    }

    open spec fn encoding(
        value: CharacterSelectionFailedReason,
        length_hint: Option<usize>,
    ) -> Seq<u8> {
        u8::encoding(value.code(), None)
    }

    fn from_bytes(byte_stream: &mut ByteStream, length_hint: Option<usize>) -> (result: Result<
        Self,
        ConversionError,
    >) {
        let mut cursor = byte_stream.fork();
        let code = u8::from_bytes(&mut cursor, None)?;
        let value = match code {
            0 => CharacterSelectionFailedReason::RejectedFromServer,
            _ => return Err(ConversionError::Invalid),
        };
        byte_stream.follow(&cursor);
        Ok(value)
    }

    fn to_bytes(&self, length_hint: Option<usize>) -> (bytes: Vec<u8>) {
        let code: u8 = match self {
            CharacterSelectionFailedReason::RejectedFromServer => 0,
        };
        code.to_bytes(None)
    }

    proof fn lemma_round_trip(
        value: CharacterSelectionFailedReason,
        length_hint: Option<usize>,
        data: Seq<u8>,
        at: int,
    ) {
        u8::lemma_round_trip(value.code(), None, data, at);
    }
}

impl FixedByteSize for CharacterSelectionFailedReason {
    open spec fn size() -> nat {
        1
    }

    fn size_in_bytes() -> (size: usize) {
        1
    }

    proof fn lemma_fixed_size(data: Seq<u8>, at: int, value: CharacterSelectionFailedReason) {
        assert(Self::size() == 1);
    }
}

/// Sent by the character server as a response to [SelectCharacterPacket]
/// failing. Provides a reason for the character selection failing.
#[derive(Clone, Copy, Debug)]
pub struct CharacterSelectionFailedPacket {
    pub reason: CharacterSelectionFailedReason,
}

impl Packet for CharacterSelectionFailedPacket {
    type Model = CharacterSelectionFailedPacket;

    const PACKET_NAME: &'static str = "CharacterSelectionFailedPacket";

    const IS_PING: bool = false;

    open spec fn model(&self) -> CharacterSelectionFailedPacket {
        *self
    }

    open spec fn packet_header() -> u16 {
        0x006c
    }

    #[verifier::opaque]
    open spec fn payload_decoding(data: Seq<u8>, at: int) -> Result<
        (CharacterSelectionFailedPacket, nat),
        ConversionError,
    > {
        let reason = CharacterSelectionFailedReason::decoding(data, at, None);
        let behind_all = behind(at, reason);
        if reason is Err {
            Err(reason->Err_0)
        } else {
            Ok(
                (
                    CharacterSelectionFailedPacket {
                        reason: reason->Ok_0.0,
                    },
                    (behind_all - at) as nat,
                ),
            )
        }
    }

    open spec fn encodable(value: CharacterSelectionFailedPacket) -> bool {
        true
    }

    #[verifier::opaque]
    open spec fn payload_encoding(value: CharacterSelectionFailedPacket) -> Seq<u8> {
        CharacterSelectionFailedReason::encoding(value.reason, None)
    }

    fn header() -> (header: u16) {
        0x006c
    }

    fn payload_from_bytes(byte_stream: &mut ByteStream) -> (result: Result<
        Self,
        ConversionError,
    >) {
        proof {
            reveal(<CharacterSelectionFailedPacket as Packet>::payload_decoding);
        }
        let mut cursor = byte_stream.fork();
        let reason = CharacterSelectionFailedReason::from_bytes(&mut cursor, None)?;
        byte_stream.follow(&cursor);
        Ok(CharacterSelectionFailedPacket { reason })
    }

    fn payload_to_bytes(&self) -> (bytes: Vec<u8>) {
        proof {
            reveal(<CharacterSelectionFailedPacket as Packet>::payload_encoding);
        }
        let bytes = self.reason.to_bytes(None);
        bytes
    }

    proof fn lemma_payload_round_trip(
        value: CharacterSelectionFailedPacket,
        data: Seq<u8>,
        at: int,
    ) {
        reveal(<CharacterSelectionFailedPacket as Packet>::payload_decoding);
        reveal(<CharacterSelectionFailedPacket as Packet>::payload_encoding);
        let piece_0 = CharacterSelectionFailedReason::encoding(value.reason, None);
        CharacterSelectionFailedReason::lemma_round_trip(value.reason, None, data, at);
    }
}

/// Sent by the character server as a response to [SelectCharacterPacket]
/// succeeding. Provides a map server to connect to, along with the ID of our
/// selected character.
#[derive(Clone, Debug)]
pub struct CharacterSelectionSuccessPacket {
    pub character_id: CharacterId,
    pub map_name: String,
    pub map_server_ip: [u8; 4],
    pub map_server_port: u16,
    pub unknown: [u8; 128],
}

/// What a [`CharacterSelectionSuccessPacket`] stands for.
pub struct CharacterSelectionSuccessPacketModel {
    pub character_id: CharacterId,
    pub map_name: Seq<char>,
    pub map_server_ip: [u8; 4],
    pub map_server_port: u16,
    pub unknown: [u8; 128],
}

impl Packet for CharacterSelectionSuccessPacket {
    type Model = CharacterSelectionSuccessPacketModel;

    const PACKET_NAME: &'static str = "CharacterSelectionSuccessPacket";

    const IS_PING: bool = false;

    open spec fn model(&self) -> CharacterSelectionSuccessPacketModel {
        CharacterSelectionSuccessPacketModel {
            character_id: self.character_id.model(),
            map_name: self.map_name.model(),
            map_server_ip: self.map_server_ip.model(),
            map_server_port: self.map_server_port.model(),
            unknown: self.unknown.model(),
        }
    }

    open spec fn packet_header() -> u16 {
        0x0ac5
    }

    #[verifier::opaque]
    open spec fn payload_decoding(data: Seq<u8>, at: int) -> Result<
        (CharacterSelectionSuccessPacketModel, nat),
        ConversionError,
    > {
        let character_id = CharacterId::decoding(data, at, None);
        let at_map_name = behind(at, character_id);
        let map_name = String::decoding(data, at_map_name, Some(16));
        let at_map_server_ip = behind(at_map_name, map_name);
        let map_server_ip = <[u8; 4]>::decoding(data, at_map_server_ip, None);
        let at_map_server_port = behind(at_map_server_ip, map_server_ip);
        let map_server_port = u16::decoding(data, at_map_server_port, None);
        let at_unknown = behind(at_map_server_port, map_server_port);
        let unknown = <[u8; 128]>::decoding(data, at_unknown, None);
        let behind_all = behind(at_unknown, unknown);
        if character_id is Err {
            Err(character_id->Err_0)
        } else if map_name is Err {
            Err(map_name->Err_0)
        } else if map_server_ip is Err {
            Err(map_server_ip->Err_0)
        } else if map_server_port is Err {
            Err(map_server_port->Err_0)
        } else if unknown is Err {
            Err(unknown->Err_0)
        } else {
            Ok(
                (
                    CharacterSelectionSuccessPacketModel {
                        character_id: character_id->Ok_0.0,
                        map_name: map_name->Ok_0.0,
                        map_server_ip: map_server_ip->Ok_0.0,
                        map_server_port: map_server_port->Ok_0.0,
                        unknown: unknown->Ok_0.0,
                    },
                    (behind_all - at) as nat,
                ),
            )
        }
    }

    open spec fn encodable(value: CharacterSelectionSuccessPacketModel) -> bool {
        String::encodable(value.map_name, Some(16))
    }

    open spec fn faithful(value: CharacterSelectionSuccessPacketModel) -> bool {
        String::faithful(value.map_name, Some(16))
    }

    #[verifier::opaque]
    open spec fn payload_encoding(value: CharacterSelectionSuccessPacketModel) -> Seq<u8> {
        CharacterId::encoding(value.character_id, None)
            + String::encoding(value.map_name, Some(16))
            + <[u8; 4]>::encoding(value.map_server_ip, None)
            + u16::encoding(value.map_server_port, None)
            + <[u8; 128]>::encoding(value.unknown, None)
    }

    fn header() -> (header: u16) {
        0x0ac5
    }

    fn payload_from_bytes(byte_stream: &mut ByteStream) -> (result: Result<
        Self,
        ConversionError,
    >) {
        proof {
            reveal(<CharacterSelectionSuccessPacket as Packet>::payload_decoding);
        }
        let mut cursor = byte_stream.fork();
        let character_id = CharacterId::from_bytes(&mut cursor, None)?;
        let map_name = String::from_bytes(&mut cursor, Some(16))?;
        let map_server_ip = <[u8; 4]>::from_bytes(&mut cursor, None)?;
        let map_server_port = u16::from_bytes(&mut cursor, None)?;
        let unknown = <[u8; 128]>::from_bytes(&mut cursor, None)?;
        byte_stream.follow(&cursor);
        Ok(CharacterSelectionSuccessPacket {
            character_id,
            map_name,
            map_server_ip,
            map_server_port,
            unknown,
        })
    }

    fn payload_to_bytes(&self) -> (bytes: Vec<u8>) {
        proof {
            reveal(<CharacterSelectionSuccessPacket as Packet>::payload_encoding);
        }
        let mut bytes = self.character_id.to_bytes(None);
        let mut piece = self.map_name.to_bytes(Some(16));
        bytes.append(&mut piece);
        let mut piece = self.map_server_ip.to_bytes(None);
        bytes.append(&mut piece);
        let mut piece = self.map_server_port.to_bytes(None);
        bytes.append(&mut piece);
        let mut piece = self.unknown.to_bytes(None);
        bytes.append(&mut piece);
        bytes
    }

    proof fn lemma_payload_round_trip(
        value: CharacterSelectionSuccessPacketModel,
        data: Seq<u8>,
        at: int,
    ) {
        reveal(<CharacterSelectionSuccessPacket as Packet>::payload_decoding);
        reveal(<CharacterSelectionSuccessPacket as Packet>::payload_encoding);
        let piece_0 = CharacterId::encoding(value.character_id, None);
        let piece_1 = String::encoding(value.map_name, Some(16));
        let piece_2 = <[u8; 4]>::encoding(value.map_server_ip, None);
        let piece_3 = u16::encoding(value.map_server_port, None);
        let piece_4 = <[u8; 128]>::encoding(value.unknown, None);
        let front_1 = piece_0;
        let front_2 = front_1 + piece_1;
        let front_3 = front_2 + piece_2;
        let front_4 = front_3 + piece_3;
        lemma_holds_at_split(data, at, front_4, piece_4);
        lemma_holds_at_split(data, at, front_3, piece_3);
        lemma_holds_at_split(data, at, front_2, piece_2);
        lemma_holds_at_split(data, at, front_1, piece_1);
        CharacterId::lemma_round_trip(value.character_id, None, data, at);
        String::lemma_round_trip(value.map_name, Some(16), data, at + front_1.len());
        <[u8; 4]>::lemma_round_trip(value.map_server_ip, None, data, at + front_2.len());
        u16::lemma_round_trip(value.map_server_port, None, data, at + front_3.len());
        <[u8; 128]>::lemma_round_trip(value.unknown, None, data, at + front_4.len());
    }
}

#[derive(Clone, Debug)]
pub struct MapServerUnavailablePacket {
    pub packet_length: u16,
    pub unknown: String,
}

/// What a [`MapServerUnavailablePacket`] stands for.
pub struct MapServerUnavailablePacketModel {
    pub packet_length: u16,
    pub unknown: Seq<char>,
}

impl Packet for MapServerUnavailablePacket {
    type Model = MapServerUnavailablePacketModel;

    const PACKET_NAME: &'static str = "MapServerUnavailablePacket";

    const IS_PING: bool = false;

    open spec fn model(&self) -> MapServerUnavailablePacketModel {
        MapServerUnavailablePacketModel {
            packet_length: self.packet_length.model(),
            unknown: self.unknown.model(),
        }
    }

    open spec fn packet_header() -> u16 {
        0x0840
    }

    #[verifier::opaque]
    open spec fn payload_decoding(data: Seq<u8>, at: int) -> Result<
        (MapServerUnavailablePacketModel, nat),
        ConversionError,
    > {
        let packet_length = u16::decoding(data, at, None);
        let end = at - 2 + packet_length->Ok_0.0;
        let frame = data.take(end);
        let at_unknown = behind(at, packet_length);
        let unknown = String::decoding(
            frame,
            at_unknown,
            Some((packet_length->Ok_0.0 - 4) as usize),
        );
        let behind_all = behind(at_unknown, unknown);
        if packet_length is Err {
            Err(packet_length->Err_0)
        } else if packet_length->Ok_0.0 < 4 {
            Err(ConversionError::Invalid)
        } else if end > data.len() {
            Err(ConversionError::Incomplete)
        } else if unknown is Err || behind_all != end {
            Err(ConversionError::Invalid)
        } else {
            Ok(
                (
                    MapServerUnavailablePacketModel {
                        packet_length: packet_length->Ok_0.0,
                        unknown: unknown->Ok_0.0,
                    },
                    (behind_all - at) as nat,
                ),
            )
        }
    }

    open spec fn encodable(value: MapServerUnavailablePacketModel) -> bool {
        &&& value.packet_length >= 4
        &&& String::encodable(value.unknown, Some((value.packet_length - 4) as usize))
        &&& value.packet_length == 2 + Self::payload_encoding(value).len()
    }

    open spec fn faithful(value: MapServerUnavailablePacketModel) -> bool {
        String::faithful(value.unknown, Some((value.packet_length - 4) as usize))
    }

    #[verifier::opaque]
    open spec fn payload_encoding(value: MapServerUnavailablePacketModel) -> Seq<u8> {
        u16::encoding(value.packet_length, None)
            + String::encoding(value.unknown, Some((value.packet_length - 4) as usize))
    }

    fn header() -> (header: u16) {
        0x0840
    }

    fn payload_from_bytes(byte_stream: &mut ByteStream) -> (result: Result<
        Self,
        ConversionError,
    >) {
        proof {
            reveal(<MapServerUnavailablePacket as Packet>::payload_decoding);
        }
        let mut cursor = byte_stream.fork();
        let packet_length = u16::from_bytes(&mut cursor, None)?;
        if packet_length < 4 {
            return Err(ConversionError::Invalid);
        }
        if cursor.remaining_length() < (packet_length - 4) as usize {
            return Err(ConversionError::Incomplete);
        }
        let end = cursor.get_offset() + (packet_length - 4) as usize;
        let mut frame = cursor.frame(end);
        let unknown = match String::from_bytes(&mut frame, Some((packet_length - 4) as usize)) {
            Ok(value) => value,
            Err(_) => return Err(ConversionError::Invalid),
        };
        if !frame.is_empty() {
            return Err(ConversionError::Invalid);
        }
        byte_stream.follow(&frame);
        Ok(MapServerUnavailablePacket { packet_length, unknown })
    }

    fn payload_to_bytes(&self) -> (bytes: Vec<u8>) {
        proof {
            reveal(<MapServerUnavailablePacket as Packet>::payload_encoding);
        }
        let mut bytes = self.packet_length.to_bytes(None);
        let mut piece = self.unknown.to_bytes(Some((self.packet_length - 4) as usize));
        bytes.append(&mut piece);
        bytes
    }

    proof fn lemma_payload_round_trip(
        value: MapServerUnavailablePacketModel,
        data: Seq<u8>,
        at: int,
    ) {
        reveal(<MapServerUnavailablePacket as Packet>::payload_decoding);
        reveal(<MapServerUnavailablePacket as Packet>::payload_encoding);
        let piece_0 = u16::encoding(value.packet_length, None);
        let piece_1 = String::encoding(value.unknown, Some((value.packet_length - 4) as usize));
        let front_1 = piece_0;
        lemma_holds_at_split(data, at, front_1, piece_1);
        lemma_holds_at_bounds(data, at, Self::payload_encoding(value));
        let end = at - 2 + value.packet_length;
        let frame = data.take(end);
        u16::lemma_round_trip(value.packet_length, None, data, at);
        lemma_holds_at_take(data, end, at + front_1.len(), piece_1);
        String::lemma_round_trip(
            value.unknown,
            Some((value.packet_length - 4) as usize),
            frame,
            at + front_1.len(),
        );
    }
}

impl LengthPrefixed for MapServerUnavailablePacket {
    open spec fn announced_length(value: MapServerUnavailablePacketModel) -> u16 {
        value.packet_length
    }

    proof fn lemma_exact_length(data: Seq<u8>, at: int) {
        reveal(<MapServerUnavailablePacket as Packet>::payload_decoding);
    }
}

#[derive(Clone, Copy, Debug)]
pub struct SwitchCharacterSlotPacket {
    pub origin_slot: u16,
    pub destination_slot: u16,
    /// 1 instead of default, just in case the sever actually uses this value
    /// (rAthena does not)
    pub remaining_moves: u16,
}

impl SwitchCharacterSlotPacket {
    /// The packet that [`new`](Self::new) makes.
    pub open spec fn made(origin_slot: u16, destination_slot: u16) -> SwitchCharacterSlotPacket {
        SwitchCharacterSlotPacket { origin_slot, destination_slot, remaining_moves: 1 }
    }

    pub fn new(origin_slot: u16, destination_slot: u16) -> (packet: Self)
        ensures
            packet.model() == Self::made(origin_slot.model(), destination_slot.model()),
    {
        let packet = SwitchCharacterSlotPacket {
            origin_slot,
            destination_slot,
            remaining_moves: 1,
        };
        packet
    }
}

impl Packet for SwitchCharacterSlotPacket {
    type Model = SwitchCharacterSlotPacket;

    const PACKET_NAME: &'static str = "SwitchCharacterSlotPacket";

    const IS_PING: bool = false;

    open spec fn model(&self) -> SwitchCharacterSlotPacket {
        *self
    }

    open spec fn packet_header() -> u16 {
        0x08d4
    }

    #[verifier::opaque]
    open spec fn payload_decoding(data: Seq<u8>, at: int) -> Result<
        (SwitchCharacterSlotPacket, nat),
        ConversionError,
    > {
        let origin_slot = u16::decoding(data, at, None);
        let at_destination_slot = behind(at, origin_slot);
        let destination_slot = u16::decoding(data, at_destination_slot, None);
        let at_remaining_moves = behind(at_destination_slot, destination_slot);
        let remaining_moves = u16::decoding(data, at_remaining_moves, None);
        let behind_all = behind(at_remaining_moves, remaining_moves);
        if origin_slot is Err {
            Err(origin_slot->Err_0)
        } else if destination_slot is Err {
            Err(destination_slot->Err_0)
        } else if remaining_moves is Err {
            Err(remaining_moves->Err_0)
        } else {
            Ok(
                (
                    SwitchCharacterSlotPacket {
                        origin_slot: origin_slot->Ok_0.0,
                        destination_slot: destination_slot->Ok_0.0,
                        remaining_moves: remaining_moves->Ok_0.0,
                    },
                    (behind_all - at) as nat,
                ),
            )
        }
    }

    open spec fn encodable(value: SwitchCharacterSlotPacket) -> bool {
        true
    }

    #[verifier::opaque]
    open spec fn payload_encoding(value: SwitchCharacterSlotPacket) -> Seq<u8> {
        u16::encoding(value.origin_slot, None)
            + u16::encoding(value.destination_slot, None)
            + u16::encoding(value.remaining_moves, None)
    }

    fn header() -> (header: u16) {
        0x08d4
    }

    fn payload_from_bytes(byte_stream: &mut ByteStream) -> (result: Result<
        Self,
        ConversionError,
    >) {
        proof {
            reveal(<SwitchCharacterSlotPacket as Packet>::payload_decoding);
        }
        let mut cursor = byte_stream.fork();
        let origin_slot = u16::from_bytes(&mut cursor, None)?;
        let destination_slot = u16::from_bytes(&mut cursor, None)?;
        let remaining_moves = u16::from_bytes(&mut cursor, None)?;
        byte_stream.follow(&cursor);
        Ok(SwitchCharacterSlotPacket { origin_slot, destination_slot, remaining_moves })
    }

    fn payload_to_bytes(&self) -> (bytes: Vec<u8>) {
        proof {
            reveal(<SwitchCharacterSlotPacket as Packet>::payload_encoding);
        }
        let mut bytes = self.origin_slot.to_bytes(None);
        let mut piece = self.destination_slot.to_bytes(None);
        bytes.append(&mut piece);
        let mut piece = self.remaining_moves.to_bytes(None);
        bytes.append(&mut piece);
        bytes
    }

    proof fn lemma_payload_round_trip(value: SwitchCharacterSlotPacket, data: Seq<u8>, at: int) {
        reveal(<SwitchCharacterSlotPacket as Packet>::payload_decoding);
        reveal(<SwitchCharacterSlotPacket as Packet>::payload_encoding);
        let piece_0 = u16::encoding(value.origin_slot, None);
        let piece_1 = u16::encoding(value.destination_slot, None);
        let piece_2 = u16::encoding(value.remaining_moves, None);
        let front_1 = piece_0;
        let front_2 = front_1 + piece_1;
        lemma_holds_at_split(data, at, front_2, piece_2);
        lemma_holds_at_split(data, at, front_1, piece_1);
        u16::lemma_round_trip(value.origin_slot, None, data, at);
        u16::lemma_round_trip(value.destination_slot, None, data, at + front_1.len());
        u16::lemma_round_trip(value.remaining_moves, None, data, at + front_2.len());
    }
}

#[derive(Clone, Copy, Debug, PartialEq, Eq, Structural)]
pub enum SwitchCharacterSlotResponseStatus {
    Success,
    Error,
}

impl SwitchCharacterSlotResponseStatus {
    /// The number that stands for a variant on the wire.
    pub open spec fn code(self) -> u16 {
        match self {
            SwitchCharacterSlotResponseStatus::Success => 0,
            SwitchCharacterSlotResponseStatus::Error => 1,
        }
    }

    /// The variant that a number stands for.
    pub open spec fn of_code(code: u16) -> Option<SwitchCharacterSlotResponseStatus> {
        if code == 0 {
            Some(SwitchCharacterSlotResponseStatus::Success)
        } else if code == 1 {
            Some(SwitchCharacterSlotResponseStatus::Error)
        } else {
            None
        }
    }
}

impl ByteConvertable for SwitchCharacterSlotResponseStatus {
    type Model = SwitchCharacterSlotResponseStatus;

    open spec fn model(&self) -> SwitchCharacterSlotResponseStatus {
        *self
    }

    open spec fn accepts(length_hint: Option<usize>) -> bool {
        length_hint is None
    }

    open spec fn decoding(data: Seq<u8>, at: int, length_hint: Option<usize>) -> Result<
        (SwitchCharacterSlotResponseStatus, nat),
        ConversionError,
    > {
        match u16::decoding(data, at, None) {
            Ok((code, length)) => match SwitchCharacterSlotResponseStatus::of_code(code) {
                Some(value) => Ok((value, length)),
                None => Err(ConversionError::Invalid),
            },
            Err(error) => Err(error),
        }
    }

    open spec fn encodable(
        value: SwitchCharacterSlotResponseStatus,
        length_hint: Option<usize>,
    ) -> bool {
        true
    }

    open spec fn encoding(
        value: SwitchCharacterSlotResponseStatus,
        length_hint: Option<usize>,
    ) -> Seq<u8> {
        u16::encoding(value.code(), None)
    }

    fn from_bytes(byte_stream: &mut ByteStream, length_hint: Option<usize>) -> (result: Result<
        Self,
        ConversionError,
    >) {
        let mut cursor = byte_stream.fork();
        let code = u16::from_bytes(&mut cursor, None)?;
        let value = match code {
            0 => SwitchCharacterSlotResponseStatus::Success,
            1 => SwitchCharacterSlotResponseStatus::Error,
            _ => return Err(ConversionError::Invalid),
        };
        byte_stream.follow(&cursor);
        Ok(value)
    }

    fn to_bytes(&self, length_hint: Option<usize>) -> (bytes: Vec<u8>) {
        let code: u16 = match self {
            SwitchCharacterSlotResponseStatus::Success => 0,
            SwitchCharacterSlotResponseStatus::Error => 1,
        };
        code.to_bytes(None)
    }

    proof fn lemma_round_trip(
        value: SwitchCharacterSlotResponseStatus,
        length_hint: Option<usize>,
        data: Seq<u8>,
        at: int,
    ) {
        u16::lemma_round_trip(value.code(), None, data, at);
    }
}

impl FixedByteSize for SwitchCharacterSlotResponseStatus {
    open spec fn size() -> nat {
        2
    }

    fn size_in_bytes() -> (size: usize) {
        2
    }

    proof fn lemma_fixed_size(data: Seq<u8>, at: int, value: SwitchCharacterSlotResponseStatus) {
        assert(Self::size() == 2);
    }
}

#[derive(Clone, Copy, Debug)]
pub struct SwitchCharacterSlotResponsePacket {
    pub unknown: u16,
    pub status: SwitchCharacterSlotResponseStatus,
    pub remaining_moves: u16,
}

impl Packet for SwitchCharacterSlotResponsePacket {
    type Model = SwitchCharacterSlotResponsePacket;

    const PACKET_NAME: &'static str = "SwitchCharacterSlotResponsePacket";

    const IS_PING: bool = false;

    open spec fn model(&self) -> SwitchCharacterSlotResponsePacket {
        *self
    }

    open spec fn packet_header() -> u16 {
        0x0b70
    }

    #[verifier::opaque]
    open spec fn payload_decoding(data: Seq<u8>, at: int) -> Result<
        (SwitchCharacterSlotResponsePacket, nat),
        ConversionError,
    > {
        let unknown = u16::decoding(data, at, None);
        let at_status = behind(at, unknown);
        let status = SwitchCharacterSlotResponseStatus::decoding(data, at_status, None);
        let at_remaining_moves = behind(at_status, status);
        let remaining_moves = u16::decoding(data, at_remaining_moves, None);
        let behind_all = behind(at_remaining_moves, remaining_moves);
        if unknown is Err {
            Err(unknown->Err_0)
        } else if status is Err {
            Err(status->Err_0)
        } else if remaining_moves is Err {
            Err(remaining_moves->Err_0)
        } else {
            Ok(
                (
                    SwitchCharacterSlotResponsePacket {
                        unknown: unknown->Ok_0.0,
                        status: status->Ok_0.0,
                        remaining_moves: remaining_moves->Ok_0.0,
                    },
                    (behind_all - at) as nat,
                ),
            )
        }
    }

    open spec fn encodable(value: SwitchCharacterSlotResponsePacket) -> bool {
        true
    }

    #[verifier::opaque]
    open spec fn payload_encoding(value: SwitchCharacterSlotResponsePacket) -> Seq<u8> {
        u16::encoding(value.unknown, None)
            + SwitchCharacterSlotResponseStatus::encoding(value.status, None)
            + u16::encoding(value.remaining_moves, None)
    }

    fn header() -> (header: u16) {
        0x0b70
    }

    fn payload_from_bytes(byte_stream: &mut ByteStream) -> (result: Result<
        Self,
        ConversionError,
    >) {
        proof {
            reveal(<SwitchCharacterSlotResponsePacket as Packet>::payload_decoding);
        }
        let mut cursor = byte_stream.fork();
        let unknown = u16::from_bytes(&mut cursor, None)?;
        let status = SwitchCharacterSlotResponseStatus::from_bytes(&mut cursor, None)?;
        let remaining_moves = u16::from_bytes(&mut cursor, None)?;
        byte_stream.follow(&cursor);
        Ok(SwitchCharacterSlotResponsePacket { unknown, status, remaining_moves })
    }

    fn payload_to_bytes(&self) -> (bytes: Vec<u8>) {
        proof {
            reveal(<SwitchCharacterSlotResponsePacket as Packet>::payload_encoding);
        }
        let mut bytes = self.unknown.to_bytes(None);
        let mut piece = self.status.to_bytes(None);
        bytes.append(&mut piece);
        let mut piece = self.remaining_moves.to_bytes(None);
        bytes.append(&mut piece);
        bytes
    }

    proof fn lemma_payload_round_trip(
        value: SwitchCharacterSlotResponsePacket,
        data: Seq<u8>,
        at: int,
    ) {
        reveal(<SwitchCharacterSlotResponsePacket as Packet>::payload_decoding);
        reveal(<SwitchCharacterSlotResponsePacket as Packet>::payload_encoding);
        let piece_0 = u16::encoding(value.unknown, None);
        let piece_1 = SwitchCharacterSlotResponseStatus::encoding(value.status, None);
        let piece_2 = u16::encoding(value.remaining_moves, None);
        let front_1 = piece_0;
        let front_2 = front_1 + piece_1;
        lemma_holds_at_split(data, at, front_2, piece_2);
        lemma_holds_at_split(data, at, front_1, piece_1);
        u16::lemma_round_trip(value.unknown, None, data, at);
        SwitchCharacterSlotResponseStatus::lemma_round_trip(
            value.status,
            None,
            data,
            at + front_1.len(),
        );
        u16::lemma_round_trip(value.remaining_moves, None, data, at + front_2.len());
    }
}

} // verus!
