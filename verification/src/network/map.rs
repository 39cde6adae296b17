//! The packets of the connection to the map server and of the map itself.

use cgmath::Vector2;
use vstd::prelude::*;

use crate::loaders::convertable::{behind, lemma_zeroed, zeroed, ByteConvertable, FixedByteSize};
use crate::loaders::stream::{ByteStream, ConversionError};
use crate::loaders::wire::lemma_holds_at_split;
use crate::network::ids::{AccountId, CharacterId, ClientTick, ColorRGBA, EntityId, Sex};
use crate::network::position::{WorldPosition, WorldPosition2};
use crate::network::packet::Packet;

verus! {

/// Sent by the client to the map server after after successfully selecting a
/// character. Attempts to log into the map server using the provided
/// information.
#[derive(Clone, Copy, Debug)]
pub struct MapServerLoginPacket {
    pub account_id: AccountId,
    pub character_id: CharacterId,
    pub login_id1: u32,
    pub client_tick: ClientTick,
    pub sex: Sex,
    pub unknown: [u8; 4],
}

impl MapServerLoginPacket {
    /// The packet that [`new`](Self::new) makes.
    pub open spec fn made(
        account_id: AccountId,
        character_id: CharacterId,
        login_id1: u32,
        client_tick: ClientTick,
        sex: Sex,
    ) -> MapServerLoginPacket {
        MapServerLoginPacket {
            account_id,
            character_id,
            login_id1,
            client_tick,
            sex,
            unknown: zeroed::<4>(),
        }
    }

    pub fn new(
        account_id: AccountId,
        character_id: CharacterId,
        login_id1: u32,
        client_tick: ClientTick,
        sex: Sex,
    ) -> (packet: Self)
        ensures
            packet.model() == Self::made(
                account_id.model(),
                character_id.model(),
                login_id1.model(),
                client_tick.model(),
                sex.model(),
            ),
    {
        let packet = MapServerLoginPacket {
            account_id,
            character_id,
            login_id1,
            client_tick,
            sex,
            unknown: [0; 4],
        };
        proof {
            lemma_zeroed(packet.unknown);
        }
        packet
    }
}

impl Packet for MapServerLoginPacket {
    type Model = MapServerLoginPacket;

    const PACKET_NAME: &'static str = "MapServerLoginPacket";

    const IS_PING: bool = false;

    open spec fn model(&self) -> MapServerLoginPacket {
        *self
    }

    open spec fn packet_header() -> u16 {
        0x0436
    }

    #[verifier::opaque]
    open spec fn payload_decoding(data: Seq<u8>, at: int) -> Result<
        (MapServerLoginPacket, nat),
        ConversionError,
    > {
        let account_id = AccountId::decoding(data, at, None);
        let at_character_id = behind(at, account_id);
        let character_id = CharacterId::decoding(data, at_character_id, None);
        let at_login_id1 = behind(at_character_id, character_id);
        let login_id1 = u32::decoding(data, at_login_id1, None);
        let at_client_tick = behind(at_login_id1, login_id1);
        let client_tick = ClientTick::decoding(data, at_client_tick, None);
        let at_sex = behind(at_client_tick, client_tick);
        let sex = Sex::decoding(data, at_sex, None);
        let at_unknown = behind(at_sex, sex);
        let unknown = <[u8; 4]>::decoding(data, at_unknown, None);
        let behind_all = behind(at_unknown, unknown);
        if account_id is Err {
            Err(account_id->Err_0)
        } else if character_id is Err {
            Err(character_id->Err_0)
        } else if login_id1 is Err {
            Err(login_id1->Err_0)
        } else if client_tick is Err {
            Err(client_tick->Err_0)
        } else if sex is Err {
            Err(sex->Err_0)
        } else if unknown is Err {
            Err(unknown->Err_0)
        } else {
            Ok(
                (
                    MapServerLoginPacket {
                        account_id: account_id->Ok_0.0,
                        character_id: character_id->Ok_0.0,
                        login_id1: login_id1->Ok_0.0,
                        client_tick: client_tick->Ok_0.0,
                        sex: sex->Ok_0.0,
                        unknown: unknown->Ok_0.0,
                    },
                    (behind_all - at) as nat,
                ),
            )
        }
    }

    open spec fn encodable(value: MapServerLoginPacket) -> bool {
        true
    }

    #[verifier::opaque]
    open spec fn payload_encoding(value: MapServerLoginPacket) -> Seq<u8> {
        AccountId::encoding(value.account_id, None)
            + CharacterId::encoding(value.character_id, None)
            + u32::encoding(value.login_id1, None)
            + ClientTick::encoding(value.client_tick, None)
            + Sex::encoding(value.sex, None)
            + <[u8; 4]>::encoding(value.unknown, None)
    }

    fn header() -> (header: u16) {
        0x0436
    }

    fn payload_from_bytes(byte_stream: &mut ByteStream) -> (result: Result<
        Self,
        ConversionError,
    >) {
        proof {
            reveal(<MapServerLoginPacket as Packet>::payload_decoding);
        }
        let mut cursor = byte_stream.fork();
        let account_id = AccountId::from_bytes(&mut cursor, None)?;
        let character_id = CharacterId::from_bytes(&mut cursor, None)?;
        let login_id1 = u32::from_bytes(&mut cursor, None)?;
        let client_tick = ClientTick::from_bytes(&mut cursor, None)?;
        let sex = Sex::from_bytes(&mut cursor, None)?;
        let unknown = <[u8; 4]>::from_bytes(&mut cursor, None)?;
        byte_stream.follow(&cursor);
        Ok(MapServerLoginPacket {
            account_id,
            character_id,
            login_id1,
            client_tick,
            sex,
            unknown,
        })
    }

    fn payload_to_bytes(&self) -> (bytes: Vec<u8>) {
        proof {
            reveal(<MapServerLoginPacket as Packet>::payload_encoding);
        }
        let mut bytes = self.account_id.to_bytes(None);
        let mut piece = self.character_id.to_bytes(None);
        bytes.append(&mut piece);
        let mut piece = self.login_id1.to_bytes(None);
        bytes.append(&mut piece);
        let mut piece = self.client_tick.to_bytes(None);
        bytes.append(&mut piece);
        let mut piece = self.sex.to_bytes(None);
        bytes.append(&mut piece);
        let mut piece = self.unknown.to_bytes(None);
        bytes.append(&mut piece);
        bytes
    }

    proof fn lemma_payload_round_trip(value: MapServerLoginPacket, data: Seq<u8>, at: int) {
        reveal(<MapServerLoginPacket as Packet>::payload_decoding);
        reveal(<MapServerLoginPacket as Packet>::payload_encoding);
        let piece_0 = AccountId::encoding(value.account_id, None);
        let piece_1 = CharacterId::encoding(value.character_id, None);
        let piece_2 = u32::encoding(value.login_id1, None);
        let piece_3 = ClientTick::encoding(value.client_tick, None);
        let piece_4 = Sex::encoding(value.sex, None);
        let piece_5 = <[u8; 4]>::encoding(value.unknown, None);
        let front_1 = piece_0;
        let front_2 = front_1 + piece_1;
        let front_3 = front_2 + piece_2;
        let front_4 = front_3 + piece_3;
        let front_5 = front_4 + piece_4;
        lemma_holds_at_split(data, at, front_5, piece_5);
        lemma_holds_at_split(data, at, front_4, piece_4);
        lemma_holds_at_split(data, at, front_3, piece_3);
        lemma_holds_at_split(data, at, front_2, piece_2);
        lemma_holds_at_split(data, at, front_1, piece_1);
        AccountId::lemma_round_trip(value.account_id, None, data, at);
        CharacterId::lemma_round_trip(value.character_id, None, data, at + front_1.len());
        u32::lemma_round_trip(value.login_id1, None, data, at + front_2.len());
        ClientTick::lemma_round_trip(value.client_tick, None, data, at + front_3.len());
        Sex::lemma_round_trip(value.sex, None, data, at + front_4.len());
        <[u8; 4]>::lemma_round_trip(value.unknown, None, data, at + front_5.len());
    }
}

/// Sent by the map server as a response to [MapServerLoginPacket] succeeding.
#[derive(Clone, Copy, Debug)]
pub struct MapServerLoginSuccessPacket {
    pub client_tick: ClientTick,
    pub position: WorldPosition,
    /// Always [5, 5] on rAthena
    pub ignored: [u8; 2],
    pub font: u16,
}

impl Packet for MapServerLoginSuccessPacket {
    type Model = MapServerLoginSuccessPacket;

    const PACKET_NAME: &'static str = "MapServerLoginSuccessPacket";

    const IS_PING: bool = false;

    open spec fn model(&self) -> MapServerLoginSuccessPacket {
        *self
    }

    open spec fn packet_header() -> u16 {
        0x02eb
    }

    #[verifier::opaque]
    open spec fn payload_decoding(data: Seq<u8>, at: int) -> Result<
        (MapServerLoginSuccessPacket, nat),
        ConversionError,
    > {
        let client_tick = ClientTick::decoding(data, at, None);
        let at_position = behind(at, client_tick);
        let position = WorldPosition::decoding(data, at_position, None);
        let at_ignored = behind(at_position, position);
        let ignored = <[u8; 2]>::decoding(data, at_ignored, None);
        let at_font = behind(at_ignored, ignored);
        let font = u16::decoding(data, at_font, None);
        let behind_all = behind(at_font, font);
        if client_tick is Err {
            Err(client_tick->Err_0)
        } else if position is Err {
            Err(position->Err_0)
        } else if ignored is Err {
            Err(ignored->Err_0)
        } else if font is Err {
            Err(font->Err_0)
        } else {
            Ok(
                (
                    MapServerLoginSuccessPacket {
                        client_tick: client_tick->Ok_0.0,
                        position: position->Ok_0.0,
                        ignored: ignored->Ok_0.0,
                        font: font->Ok_0.0,
                    },
                    (behind_all - at) as nat,
                ),
            )
        }
    }

    open spec fn encodable(value: MapServerLoginSuccessPacket) -> bool {
        WorldPosition::encodable(value.position, None)
    }

    #[verifier::opaque]
    open spec fn payload_encoding(value: MapServerLoginSuccessPacket) -> Seq<u8> {
        ClientTick::encoding(value.client_tick, None)
            + WorldPosition::encoding(value.position, None)
            + <[u8; 2]>::encoding(value.ignored, None)
            + u16::encoding(value.font, None)
    }

    fn header() -> (header: u16) {
        0x02eb
    }

    fn payload_from_bytes(byte_stream: &mut ByteStream) -> (result: Result<
        Self,
        ConversionError,
    >) {
        proof {
            reveal(<MapServerLoginSuccessPacket as Packet>::payload_decoding);
        }
        let mut cursor = byte_stream.fork();
        let client_tick = ClientTick::from_bytes(&mut cursor, None)?;
        let position = WorldPosition::from_bytes(&mut cursor, None)?;
        let ignored = <[u8; 2]>::from_bytes(&mut cursor, None)?;
        let font = u16::from_bytes(&mut cursor, None)?;
        byte_stream.follow(&cursor);
        Ok(MapServerLoginSuccessPacket { client_tick, position, ignored, font })
    }

    fn payload_to_bytes(&self) -> (bytes: Vec<u8>) {
        proof {
            reveal(<MapServerLoginSuccessPacket as Packet>::payload_encoding);
        }
        let mut bytes = self.client_tick.to_bytes(None);
        let mut piece = self.position.to_bytes(None);
        bytes.append(&mut piece);
        let mut piece = self.ignored.to_bytes(None);
        bytes.append(&mut piece);
        let mut piece = self.font.to_bytes(None);
        bytes.append(&mut piece);
        bytes
    }

    proof fn lemma_payload_round_trip(value: MapServerLoginSuccessPacket, data: Seq<u8>, at: int) {
        reveal(<MapServerLoginSuccessPacket as Packet>::payload_decoding);
        reveal(<MapServerLoginSuccessPacket as Packet>::payload_encoding);
        let piece_0 = ClientTick::encoding(value.client_tick, None);
        let piece_1 = WorldPosition::encoding(value.position, None);
        let piece_2 = <[u8; 2]>::encoding(value.ignored, None);
        let piece_3 = u16::encoding(value.font, None);
        let front_1 = piece_0;
        let front_2 = front_1 + piece_1;
        let front_3 = front_2 + piece_2;
        lemma_holds_at_split(data, at, front_3, piece_3);
        lemma_holds_at_split(data, at, front_2, piece_2);
        lemma_holds_at_split(data, at, front_1, piece_1);
        ClientTick::lemma_round_trip(value.client_tick, None, data, at);
        WorldPosition::lemma_round_trip(value.position, None, data, at + front_1.len());
        <[u8; 2]>::lemma_round_trip(value.ignored, None, data, at + front_2.len());
        u16::lemma_round_trip(value.font, None, data, at + front_3.len());
    }
}

#[derive(Clone, Copy, Debug)]
pub struct Packet8302 {
    pub entity_id: EntityId,
}

impl Packet for Packet8302 {
    type Model = Packet8302;

    const PACKET_NAME: &'static str = "Packet8302";

    const IS_PING: bool = false;

    open spec fn model(&self) -> Packet8302 {
        *self
    }

    open spec fn packet_header() -> u16 {
        0x0283
    }

    #[verifier::opaque]
    open spec fn payload_decoding(data: Seq<u8>, at: int) -> Result<
        (Packet8302, nat),
        ConversionError,
    > {
        let entity_id = EntityId::decoding(data, at, None);
        let behind_all = behind(at, entity_id);
        if entity_id is Err {
            Err(entity_id->Err_0)
        } else {
            Ok(
                (
                    Packet8302 {
                        entity_id: entity_id->Ok_0.0,
                    },
                    (behind_all - at) as nat,
                ),
            )
        }
    }

    open spec fn encodable(value: Packet8302) -> bool {
        true
    }

    #[verifier::opaque]
    open spec fn payload_encoding(value: Packet8302) -> Seq<u8> {
        EntityId::encoding(value.entity_id, None)
    }

    fn header() -> (header: u16) {
        0x0283
    }

    fn payload_from_bytes(byte_stream: &mut ByteStream) -> (result: Result<
        Self,
        ConversionError,
    >) {
        proof {
            reveal(<Packet8302 as Packet>::payload_decoding);
        }
        let mut cursor = byte_stream.fork();
        let entity_id = EntityId::from_bytes(&mut cursor, None)?;
        byte_stream.follow(&cursor);
        Ok(Packet8302 { entity_id })
    }

    fn payload_to_bytes(&self) -> (bytes: Vec<u8>) {
        proof {
            reveal(<Packet8302 as Packet>::payload_encoding);
        }
        let bytes = self.entity_id.to_bytes(None);
        bytes
    }

    proof fn lemma_payload_round_trip(value: Packet8302, data: Seq<u8>, at: int) {
        reveal(<Packet8302 as Packet>::payload_decoding);
        reveal(<Packet8302 as Packet>::payload_encoding);
        let piece_0 = EntityId::encoding(value.entity_id, None);
        EntityId::lemma_round_trip(value.entity_id, None, data, at);
    }
}

#[derive(Clone, Copy, Debug)]
pub struct Packet180b {
    /// Possibly inventory related
    pub unknown: u16,
}

impl Packet for Packet180b {
    type Model = Packet180b;

    const PACKET_NAME: &'static str = "Packet180b";

    const IS_PING: bool = false;

    open spec fn model(&self) -> Packet180b {
        *self
    }

    open spec fn packet_header() -> u16 {
        0x0b18
    }

    #[verifier::opaque]
    open spec fn payload_decoding(data: Seq<u8>, at: int) -> Result<
        (Packet180b, nat),
        ConversionError,
    > {
        let unknown = u16::decoding(data, at, None);
        let behind_all = behind(at, unknown);
        if unknown is Err {
            Err(unknown->Err_0)
        } else {
            Ok(
                (
                    Packet180b {
                        unknown: unknown->Ok_0.0,
                    },
                    (behind_all - at) as nat,
                ),
            )
        }
    }

    open spec fn encodable(value: Packet180b) -> bool {
        true
    }

    #[verifier::opaque]
    open spec fn payload_encoding(value: Packet180b) -> Seq<u8> {
        u16::encoding(value.unknown, None)
    }

    fn header() -> (header: u16) {
        0x0b18
    }

    fn payload_from_bytes(byte_stream: &mut ByteStream) -> (result: Result<
        Self,
        ConversionError,
    >) {
        proof {
            reveal(<Packet180b as Packet>::payload_decoding);
        }
        let mut cursor = byte_stream.fork();
        let unknown = u16::from_bytes(&mut cursor, None)?;
        byte_stream.follow(&cursor);
        Ok(Packet180b { unknown })
    }

    fn payload_to_bytes(&self) -> (bytes: Vec<u8>) {
        proof {
            reveal(<Packet180b as Packet>::payload_encoding);
        }
        let bytes = self.unknown.to_bytes(None);
        bytes
    }

    proof fn lemma_payload_round_trip(value: Packet180b, data: Seq<u8>, at: int) {
        reveal(<Packet180b as Packet>::payload_decoding);
        reveal(<Packet180b as Packet>::payload_encoding);
        let piece_0 = u16::encoding(value.unknown, None);
        u16::lemma_round_trip(value.unknown, None, data, at);
    }
}

#[derive(Clone, Copy, Debug)]
pub struct MapLoadedPacket {}

impl MapLoadedPacket {
    /// The packet that [`new`](Self::new) makes.
    pub open spec fn made() -> MapLoadedPacket {
        MapLoadedPacket {}
    }

    pub fn new() -> (packet: Self)
        ensures
            packet.model() == Self::made(),
    {
        MapLoadedPacket {}
    }
}

impl Packet for MapLoadedPacket {
    type Model = MapLoadedPacket;

    const PACKET_NAME: &'static str = "MapLoadedPacket";

    const IS_PING: bool = false;

    open spec fn model(&self) -> MapLoadedPacket {
        *self
    }

    open spec fn packet_header() -> u16 {
        0x007d
    }

    #[verifier::opaque]
    open spec fn payload_decoding(data: Seq<u8>, at: int) -> Result<
        (MapLoadedPacket, nat),
        ConversionError,
    > {
        Ok((MapLoadedPacket {}, 0))
    }

    open spec fn encodable(value: MapLoadedPacket) -> bool {
        true
    }

    #[verifier::opaque]
    open spec fn payload_encoding(value: MapLoadedPacket) -> Seq<u8> {
        Seq::empty()
    }

    fn header() -> (header: u16) {
        0x007d
    }

    fn payload_from_bytes(byte_stream: &mut ByteStream) -> (result: Result<
        Self,
        ConversionError,
    >) {
        proof {
            reveal(<MapLoadedPacket as Packet>::payload_decoding);
        }
        Ok(MapLoadedPacket {})
    }

    fn payload_to_bytes(&self) -> (bytes: Vec<u8>) {
        proof {
            reveal(<MapLoadedPacket as Packet>::payload_encoding);
        }
        Vec::new()
    }

    proof fn lemma_payload_round_trip(value: MapLoadedPacket, data: Seq<u8>, at: int) {
        reveal(<MapLoadedPacket as Packet>::payload_decoding);
        reveal(<MapLoadedPacket as Packet>::payload_encoding);
    }
}

/// Sent by the client to the map server when the player wants to move.
/// Attempts to path the player towards the provided position.
#[derive(Clone, Copy, Debug)]
pub struct RequestPlayerMovePacket {
    pub position: WorldPosition,
}

impl RequestPlayerMovePacket {
    /// The packet that [`new`](Self::new) makes.
    pub open spec fn made(position: WorldPosition) -> RequestPlayerMovePacket {
        RequestPlayerMovePacket { position }
    }

    pub fn new(position: WorldPosition) -> (packet: Self)
        ensures
            packet.model() == Self::made(position.model()),
    {
        let packet = RequestPlayerMovePacket { position };
        packet
    }
}

impl Packet for RequestPlayerMovePacket {
    type Model = RequestPlayerMovePacket;

    const PACKET_NAME: &'static str = "RequestPlayerMovePacket";

    const IS_PING: bool = false;

    open spec fn model(&self) -> RequestPlayerMovePacket {
        *self
    }

    open spec fn packet_header() -> u16 {
        0x0881
    }

    #[verifier::opaque]
    open spec fn payload_decoding(data: Seq<u8>, at: int) -> Result<
        (RequestPlayerMovePacket, nat),
        ConversionError,
    > {
        let position = WorldPosition::decoding(data, at, None);
        let behind_all = behind(at, position);
        if position is Err {
            Err(position->Err_0)
        } else {
            Ok(
                (
                    RequestPlayerMovePacket {
                        position: position->Ok_0.0,
                    },
                    (behind_all - at) as nat,
                ),
            )
        }
    }

    open spec fn encodable(value: RequestPlayerMovePacket) -> bool {
        WorldPosition::encodable(value.position, None)
    }

    #[verifier::opaque]
    open spec fn payload_encoding(value: RequestPlayerMovePacket) -> Seq<u8> {
        WorldPosition::encoding(value.position, None)
    }

    fn header() -> (header: u16) {
        0x0881
    }

    fn payload_from_bytes(byte_stream: &mut ByteStream) -> (result: Result<
        Self,
        ConversionError,
    >) {
        proof {
            reveal(<RequestPlayerMovePacket as Packet>::payload_decoding);
        }
        let mut cursor = byte_stream.fork();
        let position = WorldPosition::from_bytes(&mut cursor, None)?;
        byte_stream.follow(&cursor);
        Ok(RequestPlayerMovePacket { position })
    }

    fn payload_to_bytes(&self) -> (bytes: Vec<u8>) {
        proof {
            reveal(<RequestPlayerMovePacket as Packet>::payload_encoding);
        }
        let bytes = self.position.to_bytes(None);
        bytes
    }

    proof fn lemma_payload_round_trip(value: RequestPlayerMovePacket, data: Seq<u8>, at: int) {
        reveal(<RequestPlayerMovePacket as Packet>::payload_decoding);
        reveal(<RequestPlayerMovePacket as Packet>::payload_encoding);
        let piece_0 = WorldPosition::encoding(value.position, None);
        WorldPosition::lemma_round_trip(value.position, None, data, at);
    }
}

/// Sent by the client to the map server when the player wants to warp.
/// Attempts to warp the player to a specific position on a specific map using
/// the provided information.
#[derive(Clone, Debug)]
pub struct RequestWarpToMapPacket {
    pub map_name: String,
    pub position: Vector2<u16>,
}

/// What a [`RequestWarpToMapPacket`] stands for.
pub struct RequestWarpToMapPacketModel {
    pub map_name: Seq<char>,
    pub position: Vector2<u16>,
}

impl RequestWarpToMapPacket {
    /// The packet that [`new`](Self::new) makes.
    pub open spec fn made(
        map_name: Seq<char>,
        position: Vector2<u16>,
    ) -> RequestWarpToMapPacketModel {
        RequestWarpToMapPacketModel { map_name, position }
    }

    pub fn new(map_name: String, position: Vector2<u16>) -> (packet: Self)
        ensures
            packet.model() == Self::made(map_name.model(), position.model()),
    {
        let packet = RequestWarpToMapPacket { map_name, position };
        packet
    }
}

impl Packet for RequestWarpToMapPacket {
    type Model = RequestWarpToMapPacketModel;

    const PACKET_NAME: &'static str = "RequestWarpToMapPacket";

    const IS_PING: bool = false;

    open spec fn model(&self) -> RequestWarpToMapPacketModel {
        RequestWarpToMapPacketModel {
            map_name: self.map_name.model(),
            position: self.position.model(),
        }
    }

    open spec fn packet_header() -> u16 {
        0x0140
    }

    #[verifier::opaque]
    open spec fn payload_decoding(data: Seq<u8>, at: int) -> Result<
        (RequestWarpToMapPacketModel, nat),
        ConversionError,
    > {
        let map_name = String::decoding(data, at, Some(16));
        let at_position = behind(at, map_name);
        let position = Vector2::<u16>::decoding(data, at_position, None);
        let behind_all = behind(at_position, position);
        if map_name is Err {
            Err(map_name->Err_0)
        } else if position is Err {
            Err(position->Err_0)
        } else {
            Ok(
                (
                    RequestWarpToMapPacketModel {
                        map_name: map_name->Ok_0.0,
                        position: position->Ok_0.0,
                    },
                    (behind_all - at) as nat,
                ),
            )
        }
    }

    open spec fn encodable(value: RequestWarpToMapPacketModel) -> bool {
        String::encodable(value.map_name, Some(16))
    }

    open spec fn faithful(value: RequestWarpToMapPacketModel) -> bool {
        String::faithful(value.map_name, Some(16))
    }

    #[verifier::opaque]
    open spec fn payload_encoding(value: RequestWarpToMapPacketModel) -> Seq<u8> {
        String::encoding(value.map_name, Some(16)) + Vector2::<u16>::encoding(value.position, None)
    }

    fn header() -> (header: u16) {
        0x0140
    }

    fn payload_from_bytes(byte_stream: &mut ByteStream) -> (result: Result<
        Self,
        ConversionError,
    >) {
        proof {
            reveal(<RequestWarpToMapPacket as Packet>::payload_decoding);
        }
        let mut cursor = byte_stream.fork();
        let map_name = String::from_bytes(&mut cursor, Some(16))?;
        let position = Vector2::<u16>::from_bytes(&mut cursor, None)?;
        byte_stream.follow(&cursor);
        Ok(RequestWarpToMapPacket { map_name, position })
    }

    fn payload_to_bytes(&self) -> (bytes: Vec<u8>) {
        proof {
            reveal(<RequestWarpToMapPacket as Packet>::payload_encoding);
        }
        let mut bytes = self.map_name.to_bytes(Some(16));
        let mut piece = self.position.to_bytes(None);
        bytes.append(&mut piece);
        bytes
    }

    proof fn lemma_payload_round_trip(value: RequestWarpToMapPacketModel, data: Seq<u8>, at: int) {
        reveal(<RequestWarpToMapPacket as Packet>::payload_decoding);
        reveal(<RequestWarpToMapPacket as Packet>::payload_encoding);
        let piece_0 = String::encoding(value.map_name, Some(16));
        let piece_1 = Vector2::<u16>::encoding(value.position, None);
        let front_1 = piece_0;
        lemma_holds_at_split(data, at, front_1, piece_1);
        String::lemma_round_trip(value.map_name, Some(16), data, at);
        Vector2::<u16>::lemma_round_trip(value.position, None, data, at + front_1.len());
    }
}

/// Sent by the map server to the client.
/// Informs the client that the player is pathing towards a new position.
/// Provides the initial position and destination of the movement, as well as a
/// timestamp of when it started (for synchronization).
#[derive(Clone, Copy, Debug)]
pub struct PlayerMovePacket {
    pub timestamp: ClientTick,
    pub from_to: WorldPosition2,
}

impl Packet for PlayerMovePacket {
    type Model = PlayerMovePacket;

    const PACKET_NAME: &'static str = "PlayerMovePacket";

    const IS_PING: bool = false;

    open spec fn model(&self) -> PlayerMovePacket {
        *self
    }

    open spec fn packet_header() -> u16 {
        0x0087
    }

    #[verifier::opaque]
    open spec fn payload_decoding(data: Seq<u8>, at: int) -> Result<
        (PlayerMovePacket, nat),
        ConversionError,
    > {
        let timestamp = ClientTick::decoding(data, at, None);
        let at_from_to = behind(at, timestamp);
        let from_to = WorldPosition2::decoding(data, at_from_to, None);
        let behind_all = behind(at_from_to, from_to);
        if timestamp is Err {
            Err(timestamp->Err_0)
        } else if from_to is Err {
            Err(from_to->Err_0)
        } else {
            Ok(
                (
                    PlayerMovePacket {
                        timestamp: timestamp->Ok_0.0,
                        from_to: from_to->Ok_0.0,
                    },
                    (behind_all - at) as nat,
                ),
            )
        }
    }

    open spec fn encodable(value: PlayerMovePacket) -> bool {
        WorldPosition2::encodable(value.from_to, None)
    }

    #[verifier::opaque]
    open spec fn payload_encoding(value: PlayerMovePacket) -> Seq<u8> {
        ClientTick::encoding(value.timestamp, None) + WorldPosition2::encoding(value.from_to, None)
    }

    fn header() -> (header: u16) {
        0x0087
    }

    fn payload_from_bytes(byte_stream: &mut ByteStream) -> (result: Result<
        Self,
        ConversionError,
    >) {
        proof {
            reveal(<PlayerMovePacket as Packet>::payload_decoding);
        }
        let mut cursor = byte_stream.fork();
        let timestamp = ClientTick::from_bytes(&mut cursor, None)?;
        let from_to = WorldPosition2::from_bytes(&mut cursor, None)?;
        byte_stream.follow(&cursor);
        Ok(PlayerMovePacket { timestamp, from_to })
    }

    fn payload_to_bytes(&self) -> (bytes: Vec<u8>) {
        proof {
            reveal(<PlayerMovePacket as Packet>::payload_encoding);
        }
        let mut bytes = self.timestamp.to_bytes(None);
        let mut piece = self.from_to.to_bytes(None);
        bytes.append(&mut piece);
        bytes
    }

    proof fn lemma_payload_round_trip(value: PlayerMovePacket, data: Seq<u8>, at: int) {
        reveal(<PlayerMovePacket as Packet>::payload_decoding);
        reveal(<PlayerMovePacket as Packet>::payload_encoding);
        let piece_0 = ClientTick::encoding(value.timestamp, None);
        let piece_1 = WorldPosition2::encoding(value.from_to, None);
        let front_1 = piece_0;
        lemma_holds_at_split(data, at, front_1, piece_1);
        ClientTick::lemma_round_trip(value.timestamp, None, data, at);
        WorldPosition2::lemma_round_trip(value.from_to, None, data, at + front_1.len());
    }
}

#[derive(Clone, Debug)]
pub struct ChangeMapPacket {
    pub map_name: String,
    pub position: Vector2<u16>,
}

/// What a [`ChangeMapPacket`] stands for.
pub struct ChangeMapPacketModel {
    pub map_name: Seq<char>,
    pub position: Vector2<u16>,
}

impl Packet for ChangeMapPacket {
    type Model = ChangeMapPacketModel;

    const PACKET_NAME: &'static str = "ChangeMapPacket";

    const IS_PING: bool = false;

    open spec fn model(&self) -> ChangeMapPacketModel {
        ChangeMapPacketModel {
            map_name: self.map_name.model(),
            position: self.position.model(),
        }
    }

    open spec fn packet_header() -> u16 {
        0x0091
    }

    #[verifier::opaque]
    open spec fn payload_decoding(data: Seq<u8>, at: int) -> Result<
        (ChangeMapPacketModel, nat),
        ConversionError,
    > {
        let map_name = String::decoding(data, at, Some(16));
        let at_position = behind(at, map_name);
        let position = Vector2::<u16>::decoding(data, at_position, None);
        let behind_all = behind(at_position, position);
        if map_name is Err {
            Err(map_name->Err_0)
        } else if position is Err {
            Err(position->Err_0)
        } else {
            Ok(
                (
                    ChangeMapPacketModel {
                        map_name: map_name->Ok_0.0,
                        position: position->Ok_0.0,
                    },
                    (behind_all - at) as nat,
                ),
            )
        }
    }

    open spec fn encodable(value: ChangeMapPacketModel) -> bool {
        String::encodable(value.map_name, Some(16))
    }

    open spec fn faithful(value: ChangeMapPacketModel) -> bool {
        String::faithful(value.map_name, Some(16))
    }

    #[verifier::opaque]
    open spec fn payload_encoding(value: ChangeMapPacketModel) -> Seq<u8> {
        String::encoding(value.map_name, Some(16)) + Vector2::<u16>::encoding(value.position, None)
    }

    fn header() -> (header: u16) {
        0x0091
    }

    fn payload_from_bytes(byte_stream: &mut ByteStream) -> (result: Result<
        Self,
        ConversionError,
    >) {
        proof {
            reveal(<ChangeMapPacket as Packet>::payload_decoding);
        }
        let mut cursor = byte_stream.fork();
        let map_name = String::from_bytes(&mut cursor, Some(16))?;
        let position = Vector2::<u16>::from_bytes(&mut cursor, None)?;
        byte_stream.follow(&cursor);
        Ok(ChangeMapPacket { map_name, position })
    }

    fn payload_to_bytes(&self) -> (bytes: Vec<u8>) {
        proof {
            reveal(<ChangeMapPacket as Packet>::payload_encoding);
        }
        let mut bytes = self.map_name.to_bytes(Some(16));
        let mut piece = self.position.to_bytes(None);
        bytes.append(&mut piece);
        bytes
    }

    proof fn lemma_payload_round_trip(value: ChangeMapPacketModel, data: Seq<u8>, at: int) {
        reveal(<ChangeMapPacket as Packet>::payload_decoding);
        reveal(<ChangeMapPacket as Packet>::payload_encoding);
        let piece_0 = String::encoding(value.map_name, Some(16));
        let piece_1 = Vector2::<u16>::encoding(value.position, None);
        let front_1 = piece_0;
        lemma_holds_at_split(data, at, front_1, piece_1);
        String::lemma_round_trip(value.map_name, Some(16), data, at);
        Vector2::<u16>::lemma_round_trip(value.position, None, data, at + front_1.len());
    }
}

#[derive(Clone, Copy, Debug)]
pub struct MapTypePacket {
    pub map_type: u16,
    pub flags: u32,
}

impl Packet for MapTypePacket {
    type Model = MapTypePacket;

    const PACKET_NAME: &'static str = "MapTypePacket";

    const IS_PING: bool = false;

    open spec fn model(&self) -> MapTypePacket {
        *self
    }

    open spec fn packet_header() -> u16 {
        0x099b
    }

    #[verifier::opaque]
    open spec fn payload_decoding(data: Seq<u8>, at: int) -> Result<
        (MapTypePacket, nat),
        ConversionError,
    > {
        let map_type = u16::decoding(data, at, None);
        let at_flags = behind(at, map_type);
        let flags = u32::decoding(data, at_flags, None);
        let behind_all = behind(at_flags, flags);
        if map_type is Err {
            Err(map_type->Err_0)
        } else if flags is Err {
            Err(flags->Err_0)
        } else {
            Ok(
                (
                    MapTypePacket {
                        map_type: map_type->Ok_0.0,
                        flags: flags->Ok_0.0,
                    },
                    (behind_all - at) as nat,
                ),
            )
        }
    }

    open spec fn encodable(value: MapTypePacket) -> bool {
        true
    }

    #[verifier::opaque]
    open spec fn payload_encoding(value: MapTypePacket) -> Seq<u8> {
        u16::encoding(value.map_type, None) + u32::encoding(value.flags, None)
    }

    fn header() -> (header: u16) {
        0x099b
    }

    fn payload_from_bytes(byte_stream: &mut ByteStream) -> (result: Result<
        Self,
        ConversionError,
    >) {
        proof {
            reveal(<MapTypePacket as Packet>::payload_decoding);
        }
        let mut cursor = byte_stream.fork();
        let map_type = u16::from_bytes(&mut cursor, None)?;
        let flags = u32::from_bytes(&mut cursor, None)?;
        byte_stream.follow(&cursor);
        Ok(MapTypePacket { map_type, flags })
    }

    fn payload_to_bytes(&self) -> (bytes: Vec<u8>) {
        proof {
            reveal(<MapTypePacket as Packet>::payload_encoding);
        }
        let mut bytes = self.map_type.to_bytes(None);
        let mut piece = self.flags.to_bytes(None);
        bytes.append(&mut piece);
        bytes
    }

    proof fn lemma_payload_round_trip(value: MapTypePacket, data: Seq<u8>, at: int) {
        reveal(<MapTypePacket as Packet>::payload_decoding);
        reveal(<MapTypePacket as Packet>::payload_encoding);
        let piece_0 = u16::encoding(value.map_type, None);
        let piece_1 = u32::encoding(value.flags, None);
        let front_1 = piece_0;
        lemma_holds_at_split(data, at, front_1, piece_1);
        u16::lemma_round_trip(value.map_type, None, data, at);
        u32::lemma_round_trip(value.flags, None, data, at + front_1.len());
    }
}

#[derive(Clone, Debug)]
pub struct ChangeMapCellPacket {
    pub position: Vector2<u16>,
    pub cell_type: u16,
    pub map_name: String,
}

/// What a [`ChangeMapCellPacket`] stands for.
pub struct ChangeMapCellPacketModel {
    pub position: Vector2<u16>,
    pub cell_type: u16,
    pub map_name: Seq<char>,
}

impl Packet for ChangeMapCellPacket {
    type Model = ChangeMapCellPacketModel;

    const PACKET_NAME: &'static str = "ChangeMapCellPacket";

    const IS_PING: bool = false;

    open spec fn model(&self) -> ChangeMapCellPacketModel {
        ChangeMapCellPacketModel {
            position: self.position.model(),
            cell_type: self.cell_type.model(),
            map_name: self.map_name.model(),
        }
    }

    open spec fn packet_header() -> u16 {
        0x0192
    }

    #[verifier::opaque]
    open spec fn payload_decoding(data: Seq<u8>, at: int) -> Result<
        (ChangeMapCellPacketModel, nat),
        ConversionError,
    > {
        let position = Vector2::<u16>::decoding(data, at, None);
        let at_cell_type = behind(at, position);
        let cell_type = u16::decoding(data, at_cell_type, None);
        let at_map_name = behind(at_cell_type, cell_type);
        let map_name = String::decoding(data, at_map_name, Some(16));
        let behind_all = behind(at_map_name, map_name);
        if position is Err {
            Err(position->Err_0)
        } else if cell_type is Err {
            Err(cell_type->Err_0)
        } else if map_name is Err {
            Err(map_name->Err_0)
        } else {
            Ok(
                (
                    ChangeMapCellPacketModel {
                        position: position->Ok_0.0,
                        cell_type: cell_type->Ok_0.0,
                        map_name: map_name->Ok_0.0,
                    },
                    (behind_all - at) as nat,
                ),
            )
        }
    }

    open spec fn encodable(value: ChangeMapCellPacketModel) -> bool {
        String::encodable(value.map_name, Some(16))
    }

    open spec fn faithful(value: ChangeMapCellPacketModel) -> bool {
        String::faithful(value.map_name, Some(16))
    }

    #[verifier::opaque]
    open spec fn payload_encoding(value: ChangeMapCellPacketModel) -> Seq<u8> {
        Vector2::<u16>::encoding(value.position, None)
            + u16::encoding(value.cell_type, None)
            + String::encoding(value.map_name, Some(16))
    }

    fn header() -> (header: u16) {
        0x0192
    }

    fn payload_from_bytes(byte_stream: &mut ByteStream) -> (result: Result<
        Self,
        ConversionError,
    >) {
        proof {
            reveal(<ChangeMapCellPacket as Packet>::payload_decoding);
        }
        let mut cursor = byte_stream.fork();
        let position = Vector2::<u16>::from_bytes(&mut cursor, None)?;
        let cell_type = u16::from_bytes(&mut cursor, None)?;
        let map_name = String::from_bytes(&mut cursor, Some(16))?;
        byte_stream.follow(&cursor);
        Ok(ChangeMapCellPacket { position, cell_type, map_name })
    }

    fn payload_to_bytes(&self) -> (bytes: Vec<u8>) {
        proof {
            reveal(<ChangeMapCellPacket as Packet>::payload_encoding);
        }
        let mut bytes = self.position.to_bytes(None);
        let mut piece = self.cell_type.to_bytes(None);
        bytes.append(&mut piece);
        let mut piece = self.map_name.to_bytes(Some(16));
        bytes.append(&mut piece);
        bytes
    }

    proof fn lemma_payload_round_trip(value: ChangeMapCellPacketModel, data: Seq<u8>, at: int) {
        reveal(<ChangeMapCellPacket as Packet>::payload_decoding);
        reveal(<ChangeMapCellPacket as Packet>::payload_encoding);
        let piece_0 = Vector2::<u16>::encoding(value.position, None);
        let piece_1 = u16::encoding(value.cell_type, None);
        let piece_2 = String::encoding(value.map_name, Some(16));
        let front_1 = piece_0;
        let front_2 = front_1 + piece_1;
        lemma_holds_at_split(data, at, front_2, piece_2);
        lemma_holds_at_split(data, at, front_1, piece_1);
        Vector2::<u16>::lemma_round_trip(value.position, None, data, at);
        u16::lemma_round_trip(value.cell_type, None, data, at + front_1.len());
        String::lemma_round_trip(value.map_name, Some(16), data, at + front_2.len());
    }
}

#[derive(Clone, Copy, Debug)]
pub struct ServerTickPacket {
    pub client_tick: ClientTick,
}

impl Packet for ServerTickPacket {
    type Model = ServerTickPacket;

    const PACKET_NAME: &'static str = "ServerTickPacket";

    const IS_PING: bool = true;

    open spec fn model(&self) -> ServerTickPacket {
        *self
    }

    open spec fn packet_header() -> u16 {
        0x007f
    }

    #[verifier::opaque]
    open spec fn payload_decoding(data: Seq<u8>, at: int) -> Result<
        (ServerTickPacket, nat),
        ConversionError,
    > {
        let client_tick = ClientTick::decoding(data, at, None);
        let behind_all = behind(at, client_tick);
        if client_tick is Err {
            Err(client_tick->Err_0)
        } else {
            Ok(
                (
                    ServerTickPacket {
                        client_tick: client_tick->Ok_0.0,
                    },
                    (behind_all - at) as nat,
                ),
            )
        }
    }

    open spec fn encodable(value: ServerTickPacket) -> bool {
        true
    }

    #[verifier::opaque]
    open spec fn payload_encoding(value: ServerTickPacket) -> Seq<u8> {
        ClientTick::encoding(value.client_tick, None)
    }

    fn header() -> (header: u16) {
        0x007f
    }

    fn payload_from_bytes(byte_stream: &mut ByteStream) -> (result: Result<
        Self,
        ConversionError,
    >) {
        proof {
            reveal(<ServerTickPacket as Packet>::payload_decoding);
        }
        let mut cursor = byte_stream.fork();
        let client_tick = ClientTick::from_bytes(&mut cursor, None)?;
        byte_stream.follow(&cursor);
        Ok(ServerTickPacket { client_tick })
    }

    fn payload_to_bytes(&self) -> (bytes: Vec<u8>) {
        proof {
            reveal(<ServerTickPacket as Packet>::payload_encoding);
        }
        let bytes = self.client_tick.to_bytes(None);
        bytes
    }

    proof fn lemma_payload_round_trip(value: ServerTickPacket, data: Seq<u8>, at: int) {
        reveal(<ServerTickPacket as Packet>::payload_decoding);
        reveal(<ServerTickPacket as Packet>::payload_encoding);
        let piece_0 = ClientTick::encoding(value.client_tick, None);
        ClientTick::lemma_round_trip(value.client_tick, None, data, at);
    }
}

#[derive(Clone, Copy, Debug)]
pub struct RequestServerTickPacket {
    pub client_tick: ClientTick,
}

impl RequestServerTickPacket {
    /// The packet that [`new`](Self::new) makes.
    pub open spec fn made(client_tick: ClientTick) -> RequestServerTickPacket {
        RequestServerTickPacket { client_tick }
    }

    pub fn new(client_tick: ClientTick) -> (packet: Self)
        ensures
            packet.model() == Self::made(client_tick.model()),
    {
        let packet = RequestServerTickPacket { client_tick };
        packet
    }
}

impl Packet for RequestServerTickPacket {
    type Model = RequestServerTickPacket;

    const PACKET_NAME: &'static str = "RequestServerTickPacket";

    const IS_PING: bool = true;

    open spec fn model(&self) -> RequestServerTickPacket {
        *self
    }

    open spec fn packet_header() -> u16 {
        0x0360
    }

    #[verifier::opaque]
    open spec fn payload_decoding(data: Seq<u8>, at: int) -> Result<
        (RequestServerTickPacket, nat),
        ConversionError,
    > {
        let client_tick = ClientTick::decoding(data, at, None);
        let behind_all = behind(at, client_tick);
        if client_tick is Err {
            Err(client_tick->Err_0)
        } else {
            Ok(
                (
                    RequestServerTickPacket {
                        client_tick: client_tick->Ok_0.0,
                    },
                    (behind_all - at) as nat,
                ),
            )
        }
    }

    open spec fn encodable(value: RequestServerTickPacket) -> bool {
        true
    }

    #[verifier::opaque]
    open spec fn payload_encoding(value: RequestServerTickPacket) -> Seq<u8> {
        ClientTick::encoding(value.client_tick, None)
    }

    fn header() -> (header: u16) {
        0x0360
    }

    fn payload_from_bytes(byte_stream: &mut ByteStream) -> (result: Result<
        Self,
        ConversionError,
    >) {
        proof {
            reveal(<RequestServerTickPacket as Packet>::payload_decoding);
        }
        let mut cursor = byte_stream.fork();
        let client_tick = ClientTick::from_bytes(&mut cursor, None)?;
        byte_stream.follow(&cursor);
        Ok(RequestServerTickPacket { client_tick })
    }

    fn payload_to_bytes(&self) -> (bytes: Vec<u8>) {
        proof {
            reveal(<RequestServerTickPacket as Packet>::payload_encoding);
        }
        let bytes = self.client_tick.to_bytes(None);
        bytes
    }

    proof fn lemma_payload_round_trip(value: RequestServerTickPacket, data: Seq<u8>, at: int) {
        reveal(<RequestServerTickPacket as Packet>::payload_decoding);
        reveal(<RequestServerTickPacket as Packet>::payload_encoding);
        let piece_0 = ClientTick::encoding(value.client_tick, None);
        ClientTick::lemma_round_trip(value.client_tick, None, data, at);
    }
}

#[derive(Clone, Copy, Debug, PartialEq, Eq, Structural)]
pub enum RestartType {
    Respawn,
    Disconnect,
}

impl RestartType {
    /// The number that stands for a variant on the wire.
    pub open spec fn code(self) -> u8 {
        match self {
            RestartType::Respawn => 0,
            RestartType::Disconnect => 1,
        }
    }

    /// The variant that a number stands for.
    pub open spec fn of_code(code: u8) -> Option<RestartType> {
        if code == 0 {
            Some(RestartType::Respawn)
        } else if code == 1 {
            Some(RestartType::Disconnect)
        } else {
            None
        }
    }
}

impl ByteConvertable for RestartType {
    type Model = RestartType;

    open spec fn model(&self) -> RestartType {
        *self
    }

    open spec fn accepts(length_hint: Option<usize>) -> bool {
        length_hint is None
    }

    open spec fn decoding(data: Seq<u8>, at: int, length_hint: Option<usize>) -> Result<
        (RestartType, nat),
        ConversionError,
    > {
        match u8::decoding(data, at, None) {
            Ok((code, length)) => match RestartType::of_code(code) {
                Some(value) => Ok((value, length)),
                None => Err(ConversionError::Invalid),
            },
            Err(error) => Err(error),
        }
    }

    open spec fn encodable(value: RestartType, length_hint: Option<usize>) -> bool {
        true
    }

    open spec fn encoding(value: RestartType, length_hint: Option<usize>) -> Seq<u8> {
        u8::encoding(value.code(), None)
    }

    fn from_bytes(byte_stream: &mut ByteStream, length_hint: Option<usize>) -> (result: Result<
        Self,
        ConversionError,
    >) {
        let mut cursor = byte_stream.fork();
        let code = u8::from_bytes(&mut cursor, None)?;
        let value = match code {
            0 => RestartType::Respawn,
            1 => RestartType::Disconnect,
            _ => return Err(ConversionError::Invalid),
        };
        byte_stream.follow(&cursor);
        Ok(value)
    }

    fn to_bytes(&self, length_hint: Option<usize>) -> (bytes: Vec<u8>) {
        let code: u8 = match self {
            RestartType::Respawn => 0,
            RestartType::Disconnect => 1,
        };
        code.to_bytes(None)
    }

    proof fn lemma_round_trip(
        value: RestartType,
        length_hint: Option<usize>,
        data: Seq<u8>,
        at: int,
    ) {
        u8::lemma_round_trip(value.code(), None, data, at);
    }
}

impl FixedByteSize for RestartType {
    open spec fn size() -> nat {
        1
    }

    fn size_in_bytes() -> (size: usize) {
        1
    }

    proof fn lemma_fixed_size(data: Seq<u8>, at: int, value: RestartType) {
        assert(Self::size() == 1);
    }
}

#[derive(Clone, Copy, Debug)]
pub struct RestartPacket {
    pub restart_type: RestartType,
}

impl RestartPacket {
    /// The packet that [`new`](Self::new) makes.
    pub open spec fn made(restart_type: RestartType) -> RestartPacket {
        RestartPacket { restart_type }
    }

    pub fn new(restart_type: RestartType) -> (packet: Self)
        ensures
            packet.model() == Self::made(restart_type.model()),
    {
        let packet = RestartPacket { restart_type };
        packet
    }
}

impl Packet for RestartPacket {
    type Model = RestartPacket;

    const PACKET_NAME: &'static str = "RestartPacket";

    const IS_PING: bool = false;

    open spec fn model(&self) -> RestartPacket {
        *self
    }

    open spec fn packet_header() -> u16 {
        0x00b2
    }

    #[verifier::opaque]
    open spec fn payload_decoding(data: Seq<u8>, at: int) -> Result<
        (RestartPacket, nat),
        ConversionError,
    > {
        let restart_type = RestartType::decoding(data, at, None);
        let behind_all = behind(at, restart_type);
        if restart_type is Err {
            Err(restart_type->Err_0)
        } else {
            Ok(
                (
                    RestartPacket {
                        restart_type: restart_type->Ok_0.0,
                    },
                    (behind_all - at) as nat,
                ),
            )
        }
    }

    open spec fn encodable(value: RestartPacket) -> bool {
        true
    }

    #[verifier::opaque]
    open spec fn payload_encoding(value: RestartPacket) -> Seq<u8> {
        RestartType::encoding(value.restart_type, None)
    }

    fn header() -> (header: u16) {
        0x00b2
    }

    fn payload_from_bytes(byte_stream: &mut ByteStream) -> (result: Result<
        Self,
        ConversionError,
    >) {
        proof {
            reveal(<RestartPacket as Packet>::payload_decoding);
        }
        let mut cursor = byte_stream.fork();
        let restart_type = RestartType::from_bytes(&mut cursor, None)?;
        byte_stream.follow(&cursor);
        Ok(RestartPacket { restart_type })
    }

    fn payload_to_bytes(&self) -> (bytes: Vec<u8>) {
        proof {
            reveal(<RestartPacket as Packet>::payload_encoding);
        }
        let bytes = self.restart_type.to_bytes(None);
        bytes
    }

    proof fn lemma_payload_round_trip(value: RestartPacket, data: Seq<u8>, at: int) {
        reveal(<RestartPacket as Packet>::payload_decoding);
        reveal(<RestartPacket as Packet>::payload_encoding);
        let piece_0 = RestartType::encoding(value.restart_type, None);
        RestartType::lemma_round_trip(value.restart_type, None, data, at);
    }
}

#[derive(Clone, Copy, Debug, PartialEq, Eq, Structural)]
pub enum RestartResponseStatus {
    Nothing,
    Okay,
}

impl RestartResponseStatus {
    /// The number that stands for a variant on the wire.
    pub open spec fn code(self) -> u8 {
        match self {
            RestartResponseStatus::Nothing => 0,
            RestartResponseStatus::Okay => 1,
        }
    }

    /// The variant that a number stands for.
    pub open spec fn of_code(code: u8) -> Option<RestartResponseStatus> {
        if code == 0 {
            Some(RestartResponseStatus::Nothing)
        } else if code == 1 {
            Some(RestartResponseStatus::Okay)
        } else {
            None
        }
    }
}

impl ByteConvertable for RestartResponseStatus {
    type Model = RestartResponseStatus;

    open spec fn model(&self) -> RestartResponseStatus {
        *self
    }

    open spec fn accepts(length_hint: Option<usize>) -> bool {
        length_hint is None
    }

    open spec fn decoding(data: Seq<u8>, at: int, length_hint: Option<usize>) -> Result<
        (RestartResponseStatus, nat),
        ConversionError,
    > {
        match u8::decoding(data, at, None) {
            Ok((code, length)) => match RestartResponseStatus::of_code(code) {
                Some(value) => Ok((value, length)),
                None => Err(ConversionError::Invalid),
            },
            Err(error) => Err(error),
        }
    }

    open spec fn encodable(value: RestartResponseStatus, length_hint: Option<usize>) -> bool {
        true
    }

    open spec fn encoding(value: RestartResponseStatus, length_hint: Option<usize>) -> Seq<u8> {
        u8::encoding(value.code(), None)
    }

    fn from_bytes(byte_stream: &mut ByteStream, length_hint: Option<usize>) -> (result: Result<
        Self,
        ConversionError,
    >) {
        let mut cursor = byte_stream.fork();
        let code = u8::from_bytes(&mut cursor, None)?;
        let value = match code {
            0 => RestartResponseStatus::Nothing,
            1 => RestartResponseStatus::Okay,
            _ => return Err(ConversionError::Invalid),
        };
        byte_stream.follow(&cursor);
        Ok(value)
    }

    fn to_bytes(&self, length_hint: Option<usize>) -> (bytes: Vec<u8>) {
        let code: u8 = match self {
            RestartResponseStatus::Nothing => 0,
            RestartResponseStatus::Okay => 1,
        };
        code.to_bytes(None)
    }

    proof fn lemma_round_trip(
        value: RestartResponseStatus,
        length_hint: Option<usize>,
        data: Seq<u8>,
        at: int,
    ) {
        u8::lemma_round_trip(value.code(), None, data, at);
    }
}

impl FixedByteSize for RestartResponseStatus {
    open spec fn size() -> nat {
        1
    }

    fn size_in_bytes() -> (size: usize) {
        1
    }

    proof fn lemma_fixed_size(data: Seq<u8>, at: int, value: RestartResponseStatus) {
        assert(Self::size() == 1);
    }
}

#[derive(Clone, Copy, Debug)]
pub struct RestartResponsePacket {
    pub result: RestartResponseStatus,
}

impl Packet for RestartResponsePacket {
    type Model = RestartResponsePacket;

    const PACKET_NAME: &'static str = "RestartResponsePacket";

    const IS_PING: bool = false;

    open spec fn model(&self) -> RestartResponsePacket {
        *self
    }

    open spec fn packet_header() -> u16 {
        0x00b3
    }

    #[verifier::opaque]
    open spec fn payload_decoding(data: Seq<u8>, at: int) -> Result<
        (RestartResponsePacket, nat),
        ConversionError,
    > {
        let result_field = RestartResponseStatus::decoding(data, at, None);
        let behind_all = behind(at, result_field);
        if result_field is Err {
            Err(result_field->Err_0)
        } else {
            Ok(
                (
                    RestartResponsePacket {
                        result: result_field->Ok_0.0,
                    },
                    (behind_all - at) as nat,
                ),
            )
        }
    }

    open spec fn encodable(value: RestartResponsePacket) -> bool {
        true
    }

    #[verifier::opaque]
    open spec fn payload_encoding(value: RestartResponsePacket) -> Seq<u8> {
        RestartResponseStatus::encoding(value.result, None)
    }

    fn header() -> (header: u16) {
        0x00b3
    }

    fn payload_from_bytes(byte_stream: &mut ByteStream) -> (result: Result<
        Self,
        ConversionError,
    >) {
        proof {
            reveal(<RestartResponsePacket as Packet>::payload_decoding);
        }
        let mut cursor = byte_stream.fork();
        let result_field = RestartResponseStatus::from_bytes(&mut cursor, None)?;
        byte_stream.follow(&cursor);
        Ok(RestartResponsePacket { result: result_field })
    }

    fn payload_to_bytes(&self) -> (bytes: Vec<u8>) {
        proof {
            reveal(<RestartResponsePacket as Packet>::payload_encoding);
        }
        let bytes = self.result.to_bytes(None);
        bytes
    }

    proof fn lemma_payload_round_trip(value: RestartResponsePacket, data: Seq<u8>, at: int) {
        reveal(<RestartResponsePacket as Packet>::payload_decoding);
        reveal(<RestartResponsePacket as Packet>::payload_encoding);
        let piece_0 = RestartResponseStatus::encoding(value.result, None);
        RestartResponseStatus::lemma_round_trip(value.result, None, data, at);
    }
}

#[derive(Clone, Copy, Debug, PartialEq, Eq, Structural)]
pub enum DisconnectResponseStatus {
    Okay,
    Wait10Seconds,
}

impl DisconnectResponseStatus {
    /// The number that stands for a variant on the wire.
    pub open spec fn code(self) -> u16 {
        match self {
            DisconnectResponseStatus::Okay => 0,
            DisconnectResponseStatus::Wait10Seconds => 1,
        }
    }

    /// The variant that a number stands for.
    pub open spec fn of_code(code: u16) -> Option<DisconnectResponseStatus> {
        if code == 0 {
            Some(DisconnectResponseStatus::Okay)
        } else if code == 1 {
            Some(DisconnectResponseStatus::Wait10Seconds)
        } else {
            None
        }
    }
}

impl ByteConvertable for DisconnectResponseStatus {
    type Model = DisconnectResponseStatus;

    open spec fn model(&self) -> DisconnectResponseStatus {
        *self
    }

    open spec fn accepts(length_hint: Option<usize>) -> bool {
        length_hint is None
    }

    open spec fn decoding(data: Seq<u8>, at: int, length_hint: Option<usize>) -> Result<
        (DisconnectResponseStatus, nat),
        ConversionError,
    > {
        match u16::decoding(data, at, None) {
            Ok((code, length)) => match DisconnectResponseStatus::of_code(code) {
                Some(value) => Ok((value, length)),
                None => Err(ConversionError::Invalid),
            },
            Err(error) => Err(error),
        }
    }

    open spec fn encodable(value: DisconnectResponseStatus, length_hint: Option<usize>) -> bool {
        true
    }

    open spec fn encoding(value: DisconnectResponseStatus, length_hint: Option<usize>) -> Seq<u8> {
        u16::encoding(value.code(), None)
    }

    fn from_bytes(byte_stream: &mut ByteStream, length_hint: Option<usize>) -> (result: Result<
        Self,
        ConversionError,
    >) {
        let mut cursor = byte_stream.fork();
        let code = u16::from_bytes(&mut cursor, None)?;
        let value = match code {
            0 => DisconnectResponseStatus::Okay,
            1 => DisconnectResponseStatus::Wait10Seconds,
            _ => return Err(ConversionError::Invalid),
        };
        byte_stream.follow(&cursor);
        Ok(value)
    }

    fn to_bytes(&self, length_hint: Option<usize>) -> (bytes: Vec<u8>) {
        let code: u16 = match self {
            DisconnectResponseStatus::Okay => 0,
            DisconnectResponseStatus::Wait10Seconds => 1,
        };
        code.to_bytes(None)
    }

    proof fn lemma_round_trip(
        value: DisconnectResponseStatus,
        length_hint: Option<usize>,
        data: Seq<u8>,
        at: int,
    ) {
        u16::lemma_round_trip(value.code(), None, data, at);
    }
}

impl FixedByteSize for DisconnectResponseStatus {
    open spec fn size() -> nat {
        2
    }

    fn size_in_bytes() -> (size: usize) {
        2
    }

    proof fn lemma_fixed_size(data: Seq<u8>, at: int, value: DisconnectResponseStatus) {
        assert(Self::size() == 2);
    }
}

#[derive(Clone, Copy, Debug)]
pub struct DisconnectResponsePacket {
    pub result: DisconnectResponseStatus,
}

impl Packet for DisconnectResponsePacket {
    type Model = DisconnectResponsePacket;

    const PACKET_NAME: &'static str = "DisconnectResponsePacket";

    const IS_PING: bool = false;

    open spec fn model(&self) -> DisconnectResponsePacket {
        *self
    }

    open spec fn packet_header() -> u16 {
        0x018b
    }

    #[verifier::opaque]
    open spec fn payload_decoding(data: Seq<u8>, at: int) -> Result<
        (DisconnectResponsePacket, nat),
        ConversionError,
    > {
        let result_field = DisconnectResponseStatus::decoding(data, at, None);
        let behind_all = behind(at, result_field);
        if result_field is Err {
            Err(result_field->Err_0)
        } else {
            Ok(
                (
                    DisconnectResponsePacket {
                        result: result_field->Ok_0.0,
                    },
                    (behind_all - at) as nat,
                ),
            )
        }
    }

    open spec fn encodable(value: DisconnectResponsePacket) -> bool {
        true
    }

    #[verifier::opaque]
    open spec fn payload_encoding(value: DisconnectResponsePacket) -> Seq<u8> {
        DisconnectResponseStatus::encoding(value.result, None)
    }

    fn header() -> (header: u16) {
        0x018b
    }

    fn payload_from_bytes(byte_stream: &mut ByteStream) -> (result: Result<
        Self,
        ConversionError,
    >) {
        proof {
            reveal(<DisconnectResponsePacket as Packet>::payload_decoding);
        }
        let mut cursor = byte_stream.fork();
        let result_field = DisconnectResponseStatus::from_bytes(&mut cursor, None)?;
        byte_stream.follow(&cursor);
        Ok(DisconnectResponsePacket { result: result_field })
    }

    fn payload_to_bytes(&self) -> (bytes: Vec<u8>) {
        proof {
            reveal(<DisconnectResponsePacket as Packet>::payload_encoding);
        }
        let bytes = self.result.to_bytes(None);
        bytes
    }

    proof fn lemma_payload_round_trip(value: DisconnectResponsePacket, data: Seq<u8>, at: int) {
        reveal(<DisconnectResponsePacket as Packet>::payload_decoding);
        reveal(<DisconnectResponsePacket as Packet>::payload_encoding);
        let piece_0 = DisconnectResponseStatus::encoding(value.result, None);
        DisconnectResponseStatus::lemma_round_trip(value.result, None, data, at);
    }
}

#[derive(Clone, Debug)]
pub struct NavigateToMonsterPacket {
    pub target_type: u8,
    pub flags: u8,
    pub hide_window: u8,
    pub map_name: String,
    pub target_position: Vector2<u16>,
    pub target_monster_id: u16,
}

/// What a [`NavigateToMonsterPacket`] stands for.
pub struct NavigateToMonsterPacketModel {
    pub target_type: u8,
    pub flags: u8,
    pub hide_window: u8,
    pub map_name: Seq<char>,
    pub target_position: Vector2<u16>,
    pub target_monster_id: u16,
}

impl Packet for NavigateToMonsterPacket {
    type Model = NavigateToMonsterPacketModel;

    const PACKET_NAME: &'static str = "NavigateToMonsterPacket";

    const IS_PING: bool = false;

    open spec fn model(&self) -> NavigateToMonsterPacketModel {
        NavigateToMonsterPacketModel {
            target_type: self.target_type.model(),
            flags: self.flags.model(),
            hide_window: self.hide_window.model(),
            map_name: self.map_name.model(),
            target_position: self.target_position.model(),
            target_monster_id: self.target_monster_id.model(),
        }
    }

    open spec fn packet_header() -> u16 {
        0x08e2
    }

    #[verifier::opaque]
    open spec fn payload_decoding(data: Seq<u8>, at: int) -> Result<
        (NavigateToMonsterPacketModel, nat),
        ConversionError,
    > {
        let target_type = u8::decoding(data, at, None);
        let at_flags = behind(at, target_type);
        let flags = u8::decoding(data, at_flags, None);
        let at_hide_window = behind(at_flags, flags);
        let hide_window = u8::decoding(data, at_hide_window, None);
        let at_map_name = behind(at_hide_window, hide_window);
        let map_name = String::decoding(data, at_map_name, Some(16));
        let at_target_position = behind(at_map_name, map_name);
        let target_position = Vector2::<u16>::decoding(data, at_target_position, None);
        let at_target_monster_id = behind(at_target_position, target_position);
        let target_monster_id = u16::decoding(data, at_target_monster_id, None);
        let behind_all = behind(at_target_monster_id, target_monster_id);
        if target_type is Err {
            Err(target_type->Err_0)
        } else if flags is Err {
            Err(flags->Err_0)
        } else if hide_window is Err {
            Err(hide_window->Err_0)
        } else if map_name is Err {
            Err(map_name->Err_0)
        } else if target_position is Err {
            Err(target_position->Err_0)
        } else if target_monster_id is Err {
            Err(target_monster_id->Err_0)
        } else {
            Ok(
                (
                    NavigateToMonsterPacketModel {
                        target_type: target_type->Ok_0.0,
                        flags: flags->Ok_0.0,
                        hide_window: hide_window->Ok_0.0,
                        map_name: map_name->Ok_0.0,
                        target_position: target_position->Ok_0.0,
                        target_monster_id: target_monster_id->Ok_0.0,
                    },
                    (behind_all - at) as nat,
                ),
            )
        }
    }

    open spec fn encodable(value: NavigateToMonsterPacketModel) -> bool {
        String::encodable(value.map_name, Some(16))
    }

    open spec fn faithful(value: NavigateToMonsterPacketModel) -> bool {
        String::faithful(value.map_name, Some(16))
    }

    #[verifier::opaque]
    open spec fn payload_encoding(value: NavigateToMonsterPacketModel) -> Seq<u8> {
        u8::encoding(value.target_type, None)
            + u8::encoding(value.flags, None)
            + u8::encoding(value.hide_window, None)
            + String::encoding(value.map_name, Some(16))
            + Vector2::<u16>::encoding(value.target_position, None)
            + u16::encoding(value.target_monster_id, None)
    }

    fn header() -> (header: u16) {
        0x08e2
    }

    fn payload_from_bytes(byte_stream: &mut ByteStream) -> (result: Result<
        Self,
        ConversionError,
    >) {
        proof {
            reveal(<NavigateToMonsterPacket as Packet>::payload_decoding);
        }
        let mut cursor = byte_stream.fork();
        let target_type = u8::from_bytes(&mut cursor, None)?;
        let flags = u8::from_bytes(&mut cursor, None)?;
        let hide_window = u8::from_bytes(&mut cursor, None)?;
        let map_name = String::from_bytes(&mut cursor, Some(16))?;
        let target_position = Vector2::<u16>::from_bytes(&mut cursor, None)?;
        let target_monster_id = u16::from_bytes(&mut cursor, None)?;
        byte_stream.follow(&cursor);
        Ok(NavigateToMonsterPacket {
            target_type,
            flags,
            hide_window,
            map_name,
            target_position,
            target_monster_id,
        })
    }

    fn payload_to_bytes(&self) -> (bytes: Vec<u8>) {
        proof {
            reveal(<NavigateToMonsterPacket as Packet>::payload_encoding);
        }
        let mut bytes = self.target_type.to_bytes(None);
        let mut piece = self.flags.to_bytes(None);
        bytes.append(&mut piece);
        let mut piece = self.hide_window.to_bytes(None);
        bytes.append(&mut piece);
        let mut piece = self.map_name.to_bytes(Some(16));
        bytes.append(&mut piece);
        let mut piece = self.target_position.to_bytes(None);
        bytes.append(&mut piece);
        let mut piece = self.target_monster_id.to_bytes(None);
        bytes.append(&mut piece);
        bytes
    }

    proof fn lemma_payload_round_trip(value: NavigateToMonsterPacketModel, data: Seq<u8>, at: int) {
        reveal(<NavigateToMonsterPacket as Packet>::payload_decoding);
        reveal(<NavigateToMonsterPacket as Packet>::payload_encoding);
        let piece_0 = u8::encoding(value.target_type, None);
        let piece_1 = u8::encoding(value.flags, None);
        let piece_2 = u8::encoding(value.hide_window, None);
        let piece_3 = String::encoding(value.map_name, Some(16));
        let piece_4 = Vector2::<u16>::encoding(value.target_position, None);
        let piece_5 = u16::encoding(value.target_monster_id, None);
        let front_1 = piece_0;
        let front_2 = front_1 + piece_1;
        let front_3 = front_2 + piece_2;
        let front_4 = front_3 + piece_3;
        let front_5 = front_4 + piece_4;
        lemma_holds_at_split(data, at, front_5, piece_5);
        lemma_holds_at_split(data, at, front_4, piece_4);
        lemma_holds_at_split(data, at, front_3, piece_3);
        lemma_holds_at_split(data, at, front_2, piece_2);
        lemma_holds_at_split(data, at, front_1, piece_1);
        u8::lemma_round_trip(value.target_type, None, data, at);
        u8::lemma_round_trip(value.flags, None, data, at + front_1.len());
        u8::lemma_round_trip(value.hide_window, None, data, at + front_2.len());
        String::lemma_round_trip(value.map_name, Some(16), data, at + front_3.len());
        Vector2::<u16>::lemma_round_trip(value.target_position, None, data, at + front_4.len());
        u16::lemma_round_trip(value.target_monster_id, None, data, at + front_5.len());
    }
}

#[derive(Clone, Copy, Debug, PartialEq, Eq, Structural)]
pub enum MarkerType {
    DisplayFor15Seconds,
    DisplayUntilLeave,
    RemoveMark,
}

impl MarkerType {
    /// The number that stands for a variant on the wire.
    pub open spec fn code(self) -> u32 {
        match self {
            MarkerType::DisplayFor15Seconds => 0,
            MarkerType::DisplayUntilLeave => 1,
            MarkerType::RemoveMark => 2,
        }
    }

    /// The variant that a number stands for.
    pub open spec fn of_code(code: u32) -> Option<MarkerType> {
        if code == 0 {
            Some(MarkerType::DisplayFor15Seconds)
        } else if code == 1 {
            Some(MarkerType::DisplayUntilLeave)
        } else if code == 2 {
            Some(MarkerType::RemoveMark)
        } else {
            None
        }
    }
}

impl ByteConvertable for MarkerType {
    type Model = MarkerType;

    open spec fn model(&self) -> MarkerType {
        *self
    }

    open spec fn accepts(length_hint: Option<usize>) -> bool {
        length_hint is None
    }

    open spec fn decoding(data: Seq<u8>, at: int, length_hint: Option<usize>) -> Result<
        (MarkerType, nat),
        ConversionError,
    > {
        match u32::decoding(data, at, None) {
            Ok((code, length)) => match MarkerType::of_code(code) {
                Some(value) => Ok((value, length)),
                None => Err(ConversionError::Invalid),
            },
            Err(error) => Err(error),
        }
    }

    open spec fn encodable(value: MarkerType, length_hint: Option<usize>) -> bool {
        true
    }

    open spec fn encoding(value: MarkerType, length_hint: Option<usize>) -> Seq<u8> {
        u32::encoding(value.code(), None)
    }

    fn from_bytes(byte_stream: &mut ByteStream, length_hint: Option<usize>) -> (result: Result<
        Self,
        ConversionError,
    >) {
        let mut cursor = byte_stream.fork();
        let code = u32::from_bytes(&mut cursor, None)?;
        let value = match code {
            0 => MarkerType::DisplayFor15Seconds,
            1 => MarkerType::DisplayUntilLeave,
            2 => MarkerType::RemoveMark,
            _ => return Err(ConversionError::Invalid),
        };
        byte_stream.follow(&cursor);
        Ok(value)
    }

    fn to_bytes(&self, length_hint: Option<usize>) -> (bytes: Vec<u8>) {
        let code: u32 = match self {
            MarkerType::DisplayFor15Seconds => 0,
            MarkerType::DisplayUntilLeave => 1,
            MarkerType::RemoveMark => 2,
        };
        code.to_bytes(None)
    }

    proof fn lemma_round_trip(
        value: MarkerType,
        length_hint: Option<usize>,
        data: Seq<u8>,
        at: int,
    ) {
        u32::lemma_round_trip(value.code(), None, data, at);
    }
}

impl FixedByteSize for MarkerType {
    open spec fn size() -> nat {
        4
    }

    fn size_in_bytes() -> (size: usize) {
        4
    }

    proof fn lemma_fixed_size(data: Seq<u8>, at: int, value: MarkerType) {
        assert(Self::size() == 4);
    }
}

#[derive(Clone, Copy, Debug)]
pub struct MarkMinimapPositionPacket {
    pub npc_id: EntityId,
    pub marker_type: MarkerType,
    pub position: Vector2<u32>,
    pub id: u8,
    pub color: ColorRGBA,
}

impl Packet for MarkMinimapPositionPacket {
    type Model = MarkMinimapPositionPacket;

    const PACKET_NAME: &'static str = "MarkMinimapPositionPacket";

    const IS_PING: bool = false;

    open spec fn model(&self) -> MarkMinimapPositionPacket {
        *self
    }

    open spec fn packet_header() -> u16 {
        0x0144
    }

    #[verifier::opaque]
    open spec fn payload_decoding(data: Seq<u8>, at: int) -> Result<
        (MarkMinimapPositionPacket, nat),
        ConversionError,
    > {
        let npc_id = EntityId::decoding(data, at, None);
        let at_marker_type = behind(at, npc_id);
        let marker_type = MarkerType::decoding(data, at_marker_type, None);
        let at_position = behind(at_marker_type, marker_type);
        let position = Vector2::<u32>::decoding(data, at_position, None);
        let at_id = behind(at_position, position);
        let id = u8::decoding(data, at_id, None);
        let at_color = behind(at_id, id);
        let color = ColorRGBA::decoding(data, at_color, None);
        let behind_all = behind(at_color, color);
        if npc_id is Err {
            Err(npc_id->Err_0)
        } else if marker_type is Err {
            Err(marker_type->Err_0)
        } else if position is Err {
            Err(position->Err_0)
        } else if id is Err {
            Err(id->Err_0)
        } else if color is Err {
            Err(color->Err_0)
        } else {
            Ok(
                (
                    MarkMinimapPositionPacket {
                        npc_id: npc_id->Ok_0.0,
                        marker_type: marker_type->Ok_0.0,
                        position: position->Ok_0.0,
                        id: id->Ok_0.0,
                        color: color->Ok_0.0,
                    },
                    (behind_all - at) as nat,
                ),
            )
        }
    }

    open spec fn encodable(value: MarkMinimapPositionPacket) -> bool {
        true
    }

    #[verifier::opaque]
    open spec fn payload_encoding(value: MarkMinimapPositionPacket) -> Seq<u8> {
        EntityId::encoding(value.npc_id, None)
            + MarkerType::encoding(value.marker_type, None)
            + Vector2::<u32>::encoding(value.position, None)
            + u8::encoding(value.id, None)
            + ColorRGBA::encoding(value.color, None)
    }

    fn header() -> (header: u16) {
        0x0144
    }

    fn payload_from_bytes(byte_stream: &mut ByteStream) -> (result: Result<
        Self,
        ConversionError,
    >) {
        proof {
            reveal(<MarkMinimapPositionPacket as Packet>::payload_decoding);
        }
        let mut cursor = byte_stream.fork();
        let npc_id = EntityId::from_bytes(&mut cursor, None)?;
        let marker_type = MarkerType::from_bytes(&mut cursor, None)?;
        let position = Vector2::<u32>::from_bytes(&mut cursor, None)?;
        let id = u8::from_bytes(&mut cursor, None)?;
        let color = ColorRGBA::from_bytes(&mut cursor, None)?;
        byte_stream.follow(&cursor);
        Ok(MarkMinimapPositionPacket { npc_id, marker_type, position, id, color })
    }

    fn payload_to_bytes(&self) -> (bytes: Vec<u8>) {
        proof {
            reveal(<MarkMinimapPositionPacket as Packet>::payload_encoding);
        }
        let mut bytes = self.npc_id.to_bytes(None);
        let mut piece = self.marker_type.to_bytes(None);
        bytes.append(&mut piece);
        let mut piece = self.position.to_bytes(None);
        bytes.append(&mut piece);
        let mut piece = self.id.to_bytes(None);
        bytes.append(&mut piece);
        let mut piece = self.color.to_bytes(None);
        bytes.append(&mut piece);
        bytes
    }

    proof fn lemma_payload_round_trip(value: MarkMinimapPositionPacket, data: Seq<u8>, at: int) {
        reveal(<MarkMinimapPositionPacket as Packet>::payload_decoding);
        reveal(<MarkMinimapPositionPacket as Packet>::payload_encoding);
        let piece_0 = EntityId::encoding(value.npc_id, None);
        let piece_1 = MarkerType::encoding(value.marker_type, None);
        let piece_2 = Vector2::<u32>::encoding(value.position, None);
        let piece_3 = u8::encoding(value.id, None);
        let piece_4 = ColorRGBA::encoding(value.color, None);
        let front_1 = piece_0;
        let front_2 = front_1 + piece_1;
        let front_3 = front_2 + piece_2;
        let front_4 = front_3 + piece_3;
        lemma_holds_at_split(data, at, front_4, piece_4);
        lemma_holds_at_split(data, at, front_3, piece_3);
        lemma_holds_at_split(data, at, front_2, piece_2);
        lemma_holds_at_split(data, at, front_1, piece_1);
        EntityId::lemma_round_trip(value.npc_id, None, data, at);
        MarkerType::lemma_round_trip(value.marker_type, None, data, at + front_1.len());
        Vector2::<u32>::lemma_round_trip(value.position, None, data, at + front_2.len());
        u8::lemma_round_trip(value.id, None, data, at + front_3.len());
        ColorRGBA::lemma_round_trip(value.color, None, data, at + front_4.len());
    }
}

#[derive(Clone, Copy, Debug)]
pub struct UpdateConfigurationPacket {
    pub config_type: u32,
    pub value: u32,
}

impl Packet for UpdateConfigurationPacket {
    type Model = UpdateConfigurationPacket;

    const PACKET_NAME: &'static str = "UpdateConfigurationPacket";

    const IS_PING: bool = false;

    open spec fn model(&self) -> UpdateConfigurationPacket {
        *self
    }

    open spec fn packet_header() -> u16 {
        0x02d9
    }

    #[verifier::opaque]
    open spec fn payload_decoding(data: Seq<u8>, at: int) -> Result<
        (UpdateConfigurationPacket, nat),
        ConversionError,
    > {
        let config_type = u32::decoding(data, at, None);
        let at_value_field = behind(at, config_type);
        let value_field = u32::decoding(data, at_value_field, None);
        let behind_all = behind(at_value_field, value_field);
        if config_type is Err {
            Err(config_type->Err_0)
        } else if value_field is Err {
            Err(value_field->Err_0)
        } else {
            Ok(
                (
                    UpdateConfigurationPacket {
                        config_type: config_type->Ok_0.0,
                        value: value_field->Ok_0.0,
                    },
                    (behind_all - at) as nat,
                ),
            )
        }
    }

    open spec fn encodable(value: UpdateConfigurationPacket) -> bool {
        true
    }

    #[verifier::opaque]
    open spec fn payload_encoding(value: UpdateConfigurationPacket) -> Seq<u8> {
        u32::encoding(value.config_type, None) + u32::encoding(value.value, None)
    }

    fn header() -> (header: u16) {
        0x02d9
    }

    fn payload_from_bytes(byte_stream: &mut ByteStream) -> (result: Result<
        Self,
        ConversionError,
    >) {
        proof {
            reveal(<UpdateConfigurationPacket as Packet>::payload_decoding);
        }
        let mut cursor = byte_stream.fork();
        let config_type = u32::from_bytes(&mut cursor, None)?;
        let value_field = u32::from_bytes(&mut cursor, None)?;
        byte_stream.follow(&cursor);
        Ok(UpdateConfigurationPacket { config_type, value: value_field })
    }

    fn payload_to_bytes(&self) -> (bytes: Vec<u8>) {
        proof {
            reveal(<UpdateConfigurationPacket as Packet>::payload_encoding);
        }
        let mut bytes = self.config_type.to_bytes(None);
        let mut piece = self.value.to_bytes(None);
        bytes.append(&mut piece);
        bytes
    }

    proof fn lemma_payload_round_trip(value: UpdateConfigurationPacket, data: Seq<u8>, at: int) {
        reveal(<UpdateConfigurationPacket as Packet>::payload_decoding);
        reveal(<UpdateConfigurationPacket as Packet>::payload_encoding);
        let piece_0 = u32::encoding(value.config_type, None);
        let piece_1 = u32::encoding(value.value, None);
        let front_1 = piece_0;
        lemma_holds_at_split(data, at, front_1, piece_1);
        u32::lemma_round_trip(value.config_type, None, data, at);
        u32::lemma_round_trip(value.value, None, data, at + front_1.len());
    }
}

#[derive(Clone, Copy, Debug)]
pub struct UpdatePartyInvitationStatePacket {
    pub allowed: u8,
}

impl Packet for UpdatePartyInvitationStatePacket {
    type Model = UpdatePartyInvitationStatePacket;

    const PACKET_NAME: &'static str = "UpdatePartyInvitationStatePacket";

    const IS_PING: bool = false;

    open spec fn model(&self) -> UpdatePartyInvitationStatePacket {
        *self
    }

    open spec fn packet_header() -> u16 {
        0x02c9
    }

    #[verifier::opaque]
    open spec fn payload_decoding(data: Seq<u8>, at: int) -> Result<
        (UpdatePartyInvitationStatePacket, nat),
        ConversionError,
    > {
        let allowed = u8::decoding(data, at, None);
        let behind_all = behind(at, allowed);
        if allowed is Err {
            Err(allowed->Err_0)
        } else {
            Ok(
                (
                    UpdatePartyInvitationStatePacket {
                        allowed: allowed->Ok_0.0,
                    },
                    (behind_all - at) as nat,
                ),
            )
        }
    }

    open spec fn encodable(value: UpdatePartyInvitationStatePacket) -> bool {
        true
    }

    #[verifier::opaque]
    open spec fn payload_encoding(value: UpdatePartyInvitationStatePacket) -> Seq<u8> {
        u8::encoding(value.allowed, None)
    }

    fn header() -> (header: u16) {
        0x02c9
    }

    fn payload_from_bytes(byte_stream: &mut ByteStream) -> (result: Result<
        Self,
        ConversionError,
    >) {
        proof {
            reveal(<UpdatePartyInvitationStatePacket as Packet>::payload_decoding);
        }
        let mut cursor = byte_stream.fork();
        let allowed = u8::from_bytes(&mut cursor, None)?;
        byte_stream.follow(&cursor);
        Ok(UpdatePartyInvitationStatePacket { allowed })
    }

    fn payload_to_bytes(&self) -> (bytes: Vec<u8>) {
        proof {
            reveal(<UpdatePartyInvitationStatePacket as Packet>::payload_encoding);
        }
        let bytes = self.allowed.to_bytes(None);
        bytes
    }

    proof fn lemma_payload_round_trip(
        value: UpdatePartyInvitationStatePacket,
        data: Seq<u8>,
        at: int,
    ) {
        reveal(<UpdatePartyInvitationStatePacket as Packet>::payload_decoding);
        reveal(<UpdatePartyInvitationStatePacket as Packet>::payload_encoding);
        let piece_0 = u8::encoding(value.allowed, None);
        u8::lemma_round_trip(value.allowed, None, data, at);
    }
}

#[derive(Clone, Copy, Debug)]
pub struct UpdateShowEquipPacket {
    pub open_equip_window: u8,
}

impl Packet for UpdateShowEquipPacket {
    type Model = UpdateShowEquipPacket;

    const PACKET_NAME: &'static str = "UpdateShowEquipPacket";

    const IS_PING: bool = false;

    open spec fn model(&self) -> UpdateShowEquipPacket {
        *self
    }

    open spec fn packet_header() -> u16 {
        0x02da
    }

    #[verifier::opaque]
    open spec fn payload_decoding(data: Seq<u8>, at: int) -> Result<
        (UpdateShowEquipPacket, nat),
        ConversionError,
    > {
        let open_equip_window = u8::decoding(data, at, None);
        let behind_all = behind(at, open_equip_window);
        if open_equip_window is Err {
            Err(open_equip_window->Err_0)
        } else {
            Ok(
                (
                    UpdateShowEquipPacket {
                        open_equip_window: open_equip_window->Ok_0.0,
                    },
                    (behind_all - at) as nat,
                ),
            )
        }
    }

    open spec fn encodable(value: UpdateShowEquipPacket) -> bool {
        true
    }

    #[verifier::opaque]
    open spec fn payload_encoding(value: UpdateShowEquipPacket) -> Seq<u8> {
        u8::encoding(value.open_equip_window, None)
    }

    fn header() -> (header: u16) {
        0x02da
    }

    fn payload_from_bytes(byte_stream: &mut ByteStream) -> (result: Result<
        Self,
        ConversionError,
    >) {
        proof {
            reveal(<UpdateShowEquipPacket as Packet>::payload_decoding);
        }
        let mut cursor = byte_stream.fork();
        let open_equip_window = u8::from_bytes(&mut cursor, None)?;
        byte_stream.follow(&cursor);
        Ok(UpdateShowEquipPacket { open_equip_window })
    }

    fn payload_to_bytes(&self) -> (bytes: Vec<u8>) {
        proof {
            reveal(<UpdateShowEquipPacket as Packet>::payload_encoding);
        }
        let bytes = self.open_equip_window.to_bytes(None);
        bytes
    }

    proof fn lemma_payload_round_trip(value: UpdateShowEquipPacket, data: Seq<u8>, at: int) {
        reveal(<UpdateShowEquipPacket as Packet>::payload_decoding);
        reveal(<UpdateShowEquipPacket as Packet>::payload_encoding);
        let piece_0 = u8::encoding(value.open_equip_window, None);
        u8::lemma_round_trip(value.open_equip_window, None, data, at);
    }
}

#[derive(Clone, Copy, Debug)]
pub struct NewMailStatusPacket {
    pub new_available: u8,
}

impl Packet for NewMailStatusPacket {
    type Model = NewMailStatusPacket;

    const PACKET_NAME: &'static str = "NewMailStatusPacket";

    const IS_PING: bool = false;

    open spec fn model(&self) -> NewMailStatusPacket {
        *self
    }

    open spec fn packet_header() -> u16 {
        0x09e7
    }

    #[verifier::opaque]
    open spec fn payload_decoding(data: Seq<u8>, at: int) -> Result<
        (NewMailStatusPacket, nat),
        ConversionError,
    > {
        let new_available = u8::decoding(data, at, None);
        let behind_all = behind(at, new_available);
        if new_available is Err {
            Err(new_available->Err_0)
        } else {
            Ok(
                (
                    NewMailStatusPacket {
                        new_available: new_available->Ok_0.0,
                    },
                    (behind_all - at) as nat,
                ),
            )
        }
    }

    open spec fn encodable(value: NewMailStatusPacket) -> bool {
        true
    }

    #[verifier::opaque]
    open spec fn payload_encoding(value: NewMailStatusPacket) -> Seq<u8> {
        u8::encoding(value.new_available, None)
    }

    fn header() -> (header: u16) {
        0x09e7
    }

    fn payload_from_bytes(byte_stream: &mut ByteStream) -> (result: Result<
        Self,
        ConversionError,
    >) {
        proof {
            reveal(<NewMailStatusPacket as Packet>::payload_decoding);
        }
        let mut cursor = byte_stream.fork();
        let new_available = u8::from_bytes(&mut cursor, None)?;
        byte_stream.follow(&cursor);
        Ok(NewMailStatusPacket { new_available })
    }

    fn payload_to_bytes(&self) -> (bytes: Vec<u8>) {
        proof {
            reveal(<NewMailStatusPacket as Packet>::payload_encoding);
        }
        let bytes = self.new_available.to_bytes(None);
        bytes
    }

    proof fn lemma_payload_round_trip(value: NewMailStatusPacket, data: Seq<u8>, at: int) {
        reveal(<NewMailStatusPacket as Packet>::payload_decoding);
        reveal(<NewMailStatusPacket as Packet>::payload_encoding);
        let piece_0 = u8::encoding(value.new_available, None);
        u8::lemma_round_trip(value.new_available, None, data, at);
    }
}

#[derive(Clone, Copy, Debug, PartialEq, Eq, Structural)]
pub enum ImageLocation {
    BottomLeft,
    BottomMiddle,
    BottomRight,
    MiddleFloating,
    MiddleColorless,
    ClearAll,
}

impl ImageLocation {
    /// The number that stands for a variant on the wire.
    pub open spec fn code(self) -> u8 {
        match self {
            ImageLocation::BottomLeft => 0,
            ImageLocation::BottomMiddle => 1,
            ImageLocation::BottomRight => 2,
            ImageLocation::MiddleFloating => 3,
            ImageLocation::MiddleColorless => 4,
            ImageLocation::ClearAll => 255,
        }
    }

    /// The variant that a number stands for.
    pub open spec fn of_code(code: u8) -> Option<ImageLocation> {
        if code == 0 {
            Some(ImageLocation::BottomLeft)
        } else if code == 1 {
            Some(ImageLocation::BottomMiddle)
        } else if code == 2 {
            Some(ImageLocation::BottomRight)
        } else if code == 3 {
            Some(ImageLocation::MiddleFloating)
        } else if code == 4 {
            Some(ImageLocation::MiddleColorless)
        } else if code == 255 {
            Some(ImageLocation::ClearAll)
        } else {
            None
        }
    }
}

impl ByteConvertable for ImageLocation {
    type Model = ImageLocation;

    open spec fn model(&self) -> ImageLocation {
        *self
    }

    open spec fn accepts(length_hint: Option<usize>) -> bool {
        length_hint is None
    }

    open spec fn decoding(data: Seq<u8>, at: int, length_hint: Option<usize>) -> Result<
        (ImageLocation, nat),
        ConversionError,
    > {
        match u8::decoding(data, at, None) {
            Ok((code, length)) => match ImageLocation::of_code(code) {
                Some(value) => Ok((value, length)),
                None => Err(ConversionError::Invalid),
            },
            Err(error) => Err(error),
        }
    }

    open spec fn encodable(value: ImageLocation, length_hint: Option<usize>) -> bool {
        true
    }

    open spec fn encoding(value: ImageLocation, length_hint: Option<usize>) -> Seq<u8> {
        u8::encoding(value.code(), None)
    }

    fn from_bytes(byte_stream: &mut ByteStream, length_hint: Option<usize>) -> (result: Result<
        Self,
        ConversionError,
    >) {
        let mut cursor = byte_stream.fork();
        let code = u8::from_bytes(&mut cursor, None)?;
        let value = match code {
            0 => ImageLocation::BottomLeft,
            1 => ImageLocation::BottomMiddle,
            2 => ImageLocation::BottomRight,
            3 => ImageLocation::MiddleFloating,
            4 => ImageLocation::MiddleColorless,
            255 => ImageLocation::ClearAll,
            _ => return Err(ConversionError::Invalid),
        };
        byte_stream.follow(&cursor);
        Ok(value)
    }

    fn to_bytes(&self, length_hint: Option<usize>) -> (bytes: Vec<u8>) {
        let code: u8 = match self {
            ImageLocation::BottomLeft => 0,
            ImageLocation::BottomMiddle => 1,
            ImageLocation::BottomRight => 2,
            ImageLocation::MiddleFloating => 3,
            ImageLocation::MiddleColorless => 4,
            ImageLocation::ClearAll => 255,
        };
        code.to_bytes(None)
    }

    proof fn lemma_round_trip(
        value: ImageLocation,
        length_hint: Option<usize>,
        data: Seq<u8>,
        at: int,
    ) {
        u8::lemma_round_trip(value.code(), None, data, at);
    }
}

impl FixedByteSize for ImageLocation {
    open spec fn size() -> nat {
        1
    }

    fn size_in_bytes() -> (size: usize) {
        1
    }

    proof fn lemma_fixed_size(data: Seq<u8>, at: int, value: ImageLocation) {
        assert(Self::size() == 1);
    }
}

#[derive(Clone, Debug)]
pub struct DisplayImagePacket {
    pub image_name: String,
    pub location: ImageLocation,
}

/// What a [`DisplayImagePacket`] stands for.
pub struct DisplayImagePacketModel {
    pub image_name: Seq<char>,
    pub location: ImageLocation,
}

impl Packet for DisplayImagePacket {
    type Model = DisplayImagePacketModel;

    const PACKET_NAME: &'static str = "DisplayImagePacket";

    const IS_PING: bool = false;

    open spec fn model(&self) -> DisplayImagePacketModel {
        DisplayImagePacketModel {
            image_name: self.image_name.model(),
            location: self.location.model(),
        }
    }

    open spec fn packet_header() -> u16 {
        0x01b3
    }

    #[verifier::opaque]
    open spec fn payload_decoding(data: Seq<u8>, at: int) -> Result<
        (DisplayImagePacketModel, nat),
        ConversionError,
    > {
        let image_name = String::decoding(data, at, Some(64));
        let at_location = behind(at, image_name);
        let location = ImageLocation::decoding(data, at_location, None);
        let behind_all = behind(at_location, location);
        if image_name is Err {
            Err(image_name->Err_0)
        } else if location is Err {
            Err(location->Err_0)
        } else {
            Ok(
                (
                    DisplayImagePacketModel {
                        image_name: image_name->Ok_0.0,
                        location: location->Ok_0.0,
                    },
                    (behind_all - at) as nat,
                ),
            )
        }
    }

    open spec fn encodable(value: DisplayImagePacketModel) -> bool {
        String::encodable(value.image_name, Some(64))
    }

    open spec fn faithful(value: DisplayImagePacketModel) -> bool {
        String::faithful(value.image_name, Some(64))
    }

    #[verifier::opaque]
    open spec fn payload_encoding(value: DisplayImagePacketModel) -> Seq<u8> {
        String::encoding(value.image_name, Some(64)) + ImageLocation::encoding(value.location, None)
    }

    fn header() -> (header: u16) {
        0x01b3
    }

    fn payload_from_bytes(byte_stream: &mut ByteStream) -> (result: Result<
        Self,
        ConversionError,
    >) {
        proof {
            reveal(<DisplayImagePacket as Packet>::payload_decoding);
        }
        let mut cursor = byte_stream.fork();
        let image_name = String::from_bytes(&mut cursor, Some(64))?;
        let location = ImageLocation::from_bytes(&mut cursor, None)?;
        byte_stream.follow(&cursor);
        Ok(DisplayImagePacket { image_name, location })
    }

    fn payload_to_bytes(&self) -> (bytes: Vec<u8>) {
        proof {
            reveal(<DisplayImagePacket as Packet>::payload_encoding);
        }
        let mut bytes = self.image_name.to_bytes(Some(64));
        let mut piece = self.location.to_bytes(None);
        bytes.append(&mut piece);
        bytes
    }

    proof fn lemma_payload_round_trip(value: DisplayImagePacketModel, data: Seq<u8>, at: int) {
        reveal(<DisplayImagePacket as Packet>::payload_decoding);
        reveal(<DisplayImagePacket as Packet>::payload_encoding);
        let piece_0 = String::encoding(value.image_name, Some(64));
        let piece_1 = ImageLocation::encoding(value.location, None);
        let front_1 = piece_0;
        lemma_holds_at_split(data, at, front_1, piece_1);
        String::lemma_round_trip(value.image_name, Some(64), data, at);
        ImageLocation::lemma_round_trip(value.location, None, data, at + front_1.len());
    }
}

} // verus!
