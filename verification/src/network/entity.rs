//! The packets about the entities on the map.

use cgmath::Vector2;
use vstd::prelude::*;

use crate::loaders::convertable::{behind, ByteConvertable, FixedByteSize};
use crate::loaders::stream::{ByteStream, ConversionError};
use crate::loaders::wire::{
    holds_at, lemma_holds_at_bounds, lemma_holds_at_split, lemma_holds_at_take,
};
use crate::network::ids::{AccountId, CharacterId, ClientTick, EntityId, Sex};
use crate::network::position::{WorldPosition, WorldPosition2};
use crate::network::packet::{LengthPrefixed, Packet};

verus! {

/// Sent by the map server to the client.
/// Informs the client that an entity is pathing towards a new position.
/// Provides the initial position and destination of the movement, as well as a
/// timestamp of when it started (for synchronization).
#[derive(Clone, Copy, Debug)]
pub struct EntityMovePacket {
    pub entity_id: EntityId,
    pub from_to: WorldPosition2,
    pub timestamp: ClientTick,
}

impl Packet for EntityMovePacket {
    type Model = EntityMovePacket;

    const PACKET_NAME: &'static str = "EntityMovePacket";

    const IS_PING: bool = false;

    open spec fn model(&self) -> EntityMovePacket {
        *self
    }

    open spec fn packet_header() -> u16 {
        0x0086
    }

    #[verifier::opaque]
    open spec fn payload_decoding(data: Seq<u8>, at: int) -> Result<
        (EntityMovePacket, nat),
        ConversionError,
    > {
        let entity_id = EntityId::decoding(data, at, None);
        let at_from_to = behind(at, entity_id);
        let from_to = WorldPosition2::decoding(data, at_from_to, None);
        let at_timestamp = behind(at_from_to, from_to);
        let timestamp = ClientTick::decoding(data, at_timestamp, None);
        let behind_all = behind(at_timestamp, timestamp);
        if entity_id is Err {
            Err(entity_id->Err_0)
        } else if from_to is Err {
            Err(from_to->Err_0)
        } else if timestamp is Err {
            Err(timestamp->Err_0)
        } else {
            Ok(
                (
                    EntityMovePacket {
                        entity_id: entity_id->Ok_0.0,
                        from_to: from_to->Ok_0.0,
                        timestamp: timestamp->Ok_0.0,
                    },
                    (behind_all - at) as nat,
                ),
            )
        }
    }

    open spec fn encodable(value: EntityMovePacket) -> bool {
        WorldPosition2::encodable(value.from_to, None)
    }

    #[verifier::opaque]
    open spec fn payload_encoding(value: EntityMovePacket) -> Seq<u8> {
        EntityId::encoding(value.entity_id, None)
            + WorldPosition2::encoding(value.from_to, None)
            + ClientTick::encoding(value.timestamp, None)
    }

    fn header() -> (header: u16) {
        0x0086
    }

    fn payload_from_bytes(byte_stream: &mut ByteStream) -> (result: Result<
        Self,
        ConversionError,
    >) {
        proof {
            reveal(<EntityMovePacket as Packet>::payload_decoding);
        }
        let mut cursor = byte_stream.fork();
        let entity_id = EntityId::from_bytes(&mut cursor, None)?;
        let from_to = WorldPosition2::from_bytes(&mut cursor, None)?;
        let timestamp = ClientTick::from_bytes(&mut cursor, None)?;
        byte_stream.follow(&cursor);
        Ok(EntityMovePacket { entity_id, from_to, timestamp })
    }

    fn payload_to_bytes(&self) -> (bytes: Vec<u8>) {
        proof {
            reveal(<EntityMovePacket as Packet>::payload_encoding);
        }
        let mut bytes = self.entity_id.to_bytes(None);
        let mut piece = self.from_to.to_bytes(None);
        bytes.append(&mut piece);
        let mut piece = self.timestamp.to_bytes(None);
        bytes.append(&mut piece);
        bytes
    }

    proof fn lemma_payload_round_trip(value: EntityMovePacket, data: Seq<u8>, at: int) {
        reveal(<EntityMovePacket as Packet>::payload_decoding);
        reveal(<EntityMovePacket as Packet>::payload_encoding);
        let piece_0 = EntityId::encoding(value.entity_id, None);
        let piece_1 = WorldPosition2::encoding(value.from_to, None);
        let piece_2 = ClientTick::encoding(value.timestamp, None);
        let front_1 = piece_0;
        let front_2 = front_1 + piece_1;
        lemma_holds_at_split(data, at, front_2, piece_2);
        lemma_holds_at_split(data, at, front_1, piece_1);
        EntityId::lemma_round_trip(value.entity_id, None, data, at);
        WorldPosition2::lemma_round_trip(value.from_to, None, data, at + front_1.len());
        ClientTick::lemma_round_trip(value.timestamp, None, data, at + front_2.len());
    }
}

#[derive(Clone, Copy, Debug)]
pub struct EntityStopMovePacket {
    pub entity_id: EntityId,
    pub position: Vector2<u16>,
}

impl Packet for EntityStopMovePacket {
    type Model = EntityStopMovePacket;

    const PACKET_NAME: &'static str = "EntityStopMovePacket";

    const IS_PING: bool = false;

    open spec fn model(&self) -> EntityStopMovePacket {
        *self
    }

    open spec fn packet_header() -> u16 {
        0x0088
    }

    #[verifier::opaque]
    open spec fn payload_decoding(data: Seq<u8>, at: int) -> Result<
        (EntityStopMovePacket, nat),
        ConversionError,
    > {
        let entity_id = EntityId::decoding(data, at, None);
        let at_position = behind(at, entity_id);
        let position = Vector2::<u16>::decoding(data, at_position, None);
        let behind_all = behind(at_position, position);
        if entity_id is Err {
            Err(entity_id->Err_0)
        } else if position is Err {
            Err(position->Err_0)
        } else {
            Ok(
                (
                    EntityStopMovePacket {
                        entity_id: entity_id->Ok_0.0,
                        position: position->Ok_0.0,
                    },
                    (behind_all - at) as nat,
                ),
            )
        }
    }

    open spec fn encodable(value: EntityStopMovePacket) -> bool {
        true
    }

    #[verifier::opaque]
    open spec fn payload_encoding(value: EntityStopMovePacket) -> Seq<u8> {
        EntityId::encoding(value.entity_id, None) + Vector2::<u16>::encoding(value.position, None)
    }

    fn header() -> (header: u16) {
        0x0088
    }

    fn payload_from_bytes(byte_stream: &mut ByteStream) -> (result: Result<
        Self,
        ConversionError,
    >) {
        proof {
            reveal(<EntityStopMovePacket as Packet>::payload_decoding);
        }
        let mut cursor = byte_stream.fork();
        let entity_id = EntityId::from_bytes(&mut cursor, None)?;
        let position = Vector2::<u16>::from_bytes(&mut cursor, None)?;
        byte_stream.follow(&cursor);
        Ok(EntityStopMovePacket { entity_id, position })
    }

    fn payload_to_bytes(&self) -> (bytes: Vec<u8>) {
        proof {
            reveal(<EntityStopMovePacket as Packet>::payload_encoding);
        }
        let mut bytes = self.entity_id.to_bytes(None);
        let mut piece = self.position.to_bytes(None);
        bytes.append(&mut piece);
        bytes
    }

    proof fn lemma_payload_round_trip(value: EntityStopMovePacket, data: Seq<u8>, at: int) {
        reveal(<EntityStopMovePacket as Packet>::payload_decoding);
        reveal(<EntityStopMovePacket as Packet>::payload_encoding);
        let piece_0 = EntityId::encoding(value.entity_id, None);
        let piece_1 = Vector2::<u16>::encoding(value.position, None);
        let front_1 = piece_0;
        lemma_holds_at_split(data, at, front_1, piece_1);
        EntityId::lemma_round_trip(value.entity_id, None, data, at);
        Vector2::<u16>::lemma_round_trip(value.position, None, data, at + front_1.len());
    }
}

/// Sent by the client to the map server when the user hovers over an entity.
/// Attempts to fetch additional information about the entity, such as the
/// display name.
#[derive(Clone, Copy, Debug)]
pub struct RequestDetailsPacket {
    pub entity_id: EntityId,
}

impl RequestDetailsPacket {
    /// The packet that [`new`](Self::new) makes.
    pub open spec fn made(entity_id: EntityId) -> RequestDetailsPacket {
        RequestDetailsPacket { entity_id }
    }

    pub fn new(entity_id: EntityId) -> (packet: Self)
        ensures
            packet.model() == Self::made(entity_id.model()),
    {
        let packet = RequestDetailsPacket { entity_id };
        packet
    }
}

impl Packet for RequestDetailsPacket {
    type Model = RequestDetailsPacket;

    const PACKET_NAME: &'static str = "RequestDetailsPacket";

    const IS_PING: bool = false;

    open spec fn model(&self) -> RequestDetailsPacket {
        *self
    }

    open spec fn packet_header() -> u16 {
        0x0368
    }

    #[verifier::opaque]
    open spec fn payload_decoding(data: Seq<u8>, at: int) -> Result<
        (RequestDetailsPacket, nat),
        ConversionError,
    > {
        let entity_id = EntityId::decoding(data, at, None);
        let behind_all = behind(at, entity_id);
        if entity_id is Err {
            Err(entity_id->Err_0)
        } else {
            Ok(
                (
                    RequestDetailsPacket {
                        entity_id: entity_id->Ok_0.0,
                    },
                    (behind_all - at) as nat,
                ),
            )
        }
    }

    open spec fn encodable(value: RequestDetailsPacket) -> bool {
        true
    }

    #[verifier::opaque]
    open spec fn payload_encoding(value: RequestDetailsPacket) -> Seq<u8> {
        EntityId::encoding(value.entity_id, None)
    }

    fn header() -> (header: u16) {
        0x0368
    }

    fn payload_from_bytes(byte_stream: &mut ByteStream) -> (result: Result<
        Self,
        ConversionError,
    >) {
        proof {
            reveal(<RequestDetailsPacket as Packet>::payload_decoding);
        }
        let mut cursor = byte_stream.fork();
        let entity_id = EntityId::from_bytes(&mut cursor, None)?;
        byte_stream.follow(&cursor);
        Ok(RequestDetailsPacket { entity_id })
    }

    fn payload_to_bytes(&self) -> (bytes: Vec<u8>) {
        proof {
            reveal(<RequestDetailsPacket as Packet>::payload_encoding);
        }
        let bytes = self.entity_id.to_bytes(None);
        bytes
    }

    proof fn lemma_payload_round_trip(value: RequestDetailsPacket, data: Seq<u8>, at: int) {
        reveal(<RequestDetailsPacket as Packet>::payload_decoding);
        reveal(<RequestDetailsPacket as Packet>::payload_encoding);
        let piece_0 = EntityId::encoding(value.entity_id, None);
        EntityId::lemma_round_trip(value.entity_id, None, data, at);
    }
}

/// Sent by the map server to the client as a response to
/// [RequestDetailsPacket]. Provides additional information about the player.
#[derive(Clone, Debug)]
pub struct RequestPlayerDetailsSuccessPacket {
    pub character_id: CharacterId,
    pub name: String,
    pub party_name: String,
    pub guild_name: String,
    pub position_name: String,
    pub title_id: u32,
}

/// What a [`RequestPlayerDetailsSuccessPacket`] stands for.
pub struct RequestPlayerDetailsSuccessPacketModel {
    pub character_id: CharacterId,
    pub name: Seq<char>,
    pub party_name: Seq<char>,
    pub guild_name: Seq<char>,
    pub position_name: Seq<char>,
    pub title_id: u32,
}

impl Packet for RequestPlayerDetailsSuccessPacket {
    type Model = RequestPlayerDetailsSuccessPacketModel;

    const PACKET_NAME: &'static str = "RequestPlayerDetailsSuccessPacket";

    const IS_PING: bool = false;

    open spec fn model(&self) -> RequestPlayerDetailsSuccessPacketModel {
        RequestPlayerDetailsSuccessPacketModel {
            character_id: self.character_id.model(),
            name: self.name.model(),
            party_name: self.party_name.model(),
            guild_name: self.guild_name.model(),
            position_name: self.position_name.model(),
            title_id: self.title_id.model(),
        }
    }

    open spec fn packet_header() -> u16 {
        0x0a30
    }

    #[verifier::opaque]
    open spec fn payload_decoding(data: Seq<u8>, at: int) -> Result<
        (RequestPlayerDetailsSuccessPacketModel, nat),
        ConversionError,
    > {
        let character_id = CharacterId::decoding(data, at, None);
        let at_name = behind(at, character_id);
        let name = String::decoding(data, at_name, Some(24));
        let at_party_name = behind(at_name, name);
        let party_name = String::decoding(data, at_party_name, Some(24));
        let at_guild_name = behind(at_party_name, party_name);
        let guild_name = String::decoding(data, at_guild_name, Some(24));
        let at_position_name = behind(at_guild_name, guild_name);
        let position_name = String::decoding(data, at_position_name, Some(24));
        let at_title_id = behind(at_position_name, position_name);
        let title_id = u32::decoding(data, at_title_id, None);
        let behind_all = behind(at_title_id, title_id);
        if character_id is Err {
            Err(character_id->Err_0)
        } else if name is Err {
            Err(name->Err_0)
        } else if party_name is Err {
            Err(party_name->Err_0)
        } else if guild_name is Err {
            Err(guild_name->Err_0)
        } else if position_name is Err {
            Err(position_name->Err_0)
        } else if title_id is Err {
            Err(title_id->Err_0)
        } else {
            Ok(
                (
                    RequestPlayerDetailsSuccessPacketModel {
                        character_id: character_id->Ok_0.0,
                        name: name->Ok_0.0,
                        party_name: party_name->Ok_0.0,
                        guild_name: guild_name->Ok_0.0,
                        position_name: position_name->Ok_0.0,
                        title_id: title_id->Ok_0.0,
                    },
                    (behind_all - at) as nat,
                ),
            )
        }
    }

    open spec fn encodable(value: RequestPlayerDetailsSuccessPacketModel) -> bool {
        &&& String::encodable(value.name, Some(24))
        &&& String::encodable(value.party_name, Some(24))
        &&& String::encodable(value.guild_name, Some(24))
        &&& String::encodable(value.position_name, Some(24))
    }

    open spec fn faithful(value: RequestPlayerDetailsSuccessPacketModel) -> bool {
        &&& String::faithful(value.name, Some(24))
        &&& String::faithful(value.party_name, Some(24))
        &&& String::faithful(value.guild_name, Some(24))
        &&& String::faithful(value.position_name, Some(24))
    }

    #[verifier::opaque]
    open spec fn payload_encoding(value: RequestPlayerDetailsSuccessPacketModel) -> Seq<u8> {
        CharacterId::encoding(value.character_id, None)
            + String::encoding(value.name, Some(24))
            + String::encoding(value.party_name, Some(24))
            + String::encoding(value.guild_name, Some(24))
            + String::encoding(value.position_name, Some(24))
            + u32::encoding(value.title_id, None)
    }

    fn header() -> (header: u16) {
        0x0a30
    }

    fn payload_from_bytes(byte_stream: &mut ByteStream) -> (result: Result<
        Self,
        ConversionError,
    >) {
        proof {
            reveal(<RequestPlayerDetailsSuccessPacket as Packet>::payload_decoding);
        }
        let mut cursor = byte_stream.fork();
        let character_id = CharacterId::from_bytes(&mut cursor, None)?;
        let name = String::from_bytes(&mut cursor, Some(24))?;
        let party_name = String::from_bytes(&mut cursor, Some(24))?;
        let guild_name = String::from_bytes(&mut cursor, Some(24))?;
        let position_name = String::from_bytes(&mut cursor, Some(24))?;
        let title_id = u32::from_bytes(&mut cursor, None)?;
        byte_stream.follow(&cursor);
        Ok(RequestPlayerDetailsSuccessPacket {
            character_id,
            name,
            party_name,
            guild_name,
            position_name,
            title_id,
        })
    }

    fn payload_to_bytes(&self) -> (bytes: Vec<u8>) {
        proof {
            reveal(<RequestPlayerDetailsSuccessPacket as Packet>::payload_encoding);
        }
        let mut bytes = self.character_id.to_bytes(None);
        let mut piece = self.name.to_bytes(Some(24));
        bytes.append(&mut piece);
        let mut piece = self.party_name.to_bytes(Some(24));
        bytes.append(&mut piece);
        let mut piece = self.guild_name.to_bytes(Some(24));
        bytes.append(&mut piece);
        let mut piece = self.position_name.to_bytes(Some(24));
        bytes.append(&mut piece);
        let mut piece = self.title_id.to_bytes(None);
        bytes.append(&mut piece);
        bytes
    }

    proof fn lemma_payload_round_trip(
        value: RequestPlayerDetailsSuccessPacketModel,
        data: Seq<u8>,
        at: int,
    ) {
        reveal(<RequestPlayerDetailsSuccessPacket as Packet>::payload_decoding);
        reveal(<RequestPlayerDetailsSuccessPacket as Packet>::payload_encoding);
        let piece_0 = CharacterId::encoding(value.character_id, None);
        let piece_1 = String::encoding(value.name, Some(24));
        let piece_2 = String::encoding(value.party_name, Some(24));
        let piece_3 = String::encoding(value.guild_name, Some(24));
        let piece_4 = String::encoding(value.position_name, Some(24));
        let piece_5 = u32::encoding(value.title_id, None);
        let front_1 = piece_0;
        let front_2 = front_1 + piece_1;
        let front_3 = front_2 + piece_2;
        let front_4 = front_3 + piece_3;
        let front_5 = front_4 + piece_4;
        lemma_holds_at_split(data, at, front_5, piece_5);
        lemma_holds_at_split(data, at, front_4, piece_4);
        lemma_holds_at_split(data, at, front_3, piece_3);
        lemma_holds_at_split(data, at, front_2, piece_2);
        lemma_holds_at_split(data, at, front_1, piece_1);
        CharacterId::lemma_round_trip(value.character_id, None, data, at);
        String::lemma_round_trip(value.name, Some(24), data, at + front_1.len());
        String::lemma_round_trip(value.party_name, Some(24), data, at + front_2.len());
        String::lemma_round_trip(value.guild_name, Some(24), data, at + front_3.len());
        String::lemma_round_trip(value.position_name, Some(24), data, at + front_4.len());
        u32::lemma_round_trip(value.title_id, None, data, at + front_5.len());
    }
}

/// Sent by the map server to the client as a response to
/// [RequestDetailsPacket]. Provides additional information about the entity.
#[derive(Clone, Debug)]
pub struct RequestEntityDetailsSuccessPacket {
    pub entity_id: EntityId,
    pub group_id: u32,
    pub name: String,
    pub title: String,
}

/// What a [`RequestEntityDetailsSuccessPacket`] stands for.
pub struct RequestEntityDetailsSuccessPacketModel {
    pub entity_id: EntityId,
    pub group_id: u32,
    pub name: Seq<char>,
    pub title: Seq<char>,
}

impl Packet for RequestEntityDetailsSuccessPacket {
    type Model = RequestEntityDetailsSuccessPacketModel;

    const PACKET_NAME: &'static str = "RequestEntityDetailsSuccessPacket";

    const IS_PING: bool = false;

    open spec fn model(&self) -> RequestEntityDetailsSuccessPacketModel {
        RequestEntityDetailsSuccessPacketModel {
            entity_id: self.entity_id.model(),
            group_id: self.group_id.model(),
            name: self.name.model(),
            title: self.title.model(),
        }
    }

    open spec fn packet_header() -> u16 {
        0x0adf
    }

    #[verifier::opaque]
    open spec fn payload_decoding(data: Seq<u8>, at: int) -> Result<
        (RequestEntityDetailsSuccessPacketModel, nat),
        ConversionError,
    > {
        let entity_id = EntityId::decoding(data, at, None);
        let at_group_id = behind(at, entity_id);
        let group_id = u32::decoding(data, at_group_id, None);
        let at_name = behind(at_group_id, group_id);
        let name = String::decoding(data, at_name, Some(24));
        let at_title = behind(at_name, name);
        let title = String::decoding(data, at_title, Some(24));
        let behind_all = behind(at_title, title);
        if entity_id is Err {
            Err(entity_id->Err_0)
        } else if group_id is Err {
            Err(group_id->Err_0)
        } else if name is Err {
            Err(name->Err_0)
        } else if title is Err {
            Err(title->Err_0)
        } else {
            Ok(
                (
                    RequestEntityDetailsSuccessPacketModel {
                        entity_id: entity_id->Ok_0.0,
                        group_id: group_id->Ok_0.0,
                        name: name->Ok_0.0,
                        title: title->Ok_0.0,
                    },
                    (behind_all - at) as nat,
                ),
            )
        }
    }

    open spec fn encodable(value: RequestEntityDetailsSuccessPacketModel) -> bool {
        &&& String::encodable(value.name, Some(24))
        &&& String::encodable(value.title, Some(24))
    }

    open spec fn faithful(value: RequestEntityDetailsSuccessPacketModel) -> bool {
        &&& String::faithful(value.name, Some(24))
        &&& String::faithful(value.title, Some(24))
    }

    #[verifier::opaque]
    open spec fn payload_encoding(value: RequestEntityDetailsSuccessPacketModel) -> Seq<u8> {
        EntityId::encoding(value.entity_id, None)
            + u32::encoding(value.group_id, None)
            + String::encoding(value.name, Some(24))
            + String::encoding(value.title, Some(24))
    }

    fn header() -> (header: u16) {
        0x0adf
    }

    fn payload_from_bytes(byte_stream: &mut ByteStream) -> (result: Result<
        Self,
        ConversionError,
    >) {
        proof {
            reveal(<RequestEntityDetailsSuccessPacket as Packet>::payload_decoding);
        }
        let mut cursor = byte_stream.fork();
        let entity_id = EntityId::from_bytes(&mut cursor, None)?;
        let group_id = u32::from_bytes(&mut cursor, None)?;
        let name = String::from_bytes(&mut cursor, Some(24))?;
        let title = String::from_bytes(&mut cursor, Some(24))?;
        byte_stream.follow(&cursor);
        Ok(RequestEntityDetailsSuccessPacket { entity_id, group_id, name, title })
    }

    fn payload_to_bytes(&self) -> (bytes: Vec<u8>) {
        proof {
            reveal(<RequestEntityDetailsSuccessPacket as Packet>::payload_encoding);
        }
        let mut bytes = self.entity_id.to_bytes(None);
        let mut piece = self.group_id.to_bytes(None);
        bytes.append(&mut piece);
        let mut piece = self.name.to_bytes(Some(24));
        bytes.append(&mut piece);
        let mut piece = self.title.to_bytes(Some(24));
        bytes.append(&mut piece);
        bytes
    }

    proof fn lemma_payload_round_trip(
        value: RequestEntityDetailsSuccessPacketModel,
        data: Seq<u8>,
        at: int,
    ) {
        reveal(<RequestEntityDetailsSuccessPacket as Packet>::payload_decoding);
        reveal(<RequestEntityDetailsSuccessPacket as Packet>::payload_encoding);
        let piece_0 = EntityId::encoding(value.entity_id, None);
        let piece_1 = u32::encoding(value.group_id, None);
        let piece_2 = String::encoding(value.name, Some(24));
        let piece_3 = String::encoding(value.title, Some(24));
        let front_1 = piece_0;
        let front_2 = front_1 + piece_1;
        let front_3 = front_2 + piece_2;
        lemma_holds_at_split(data, at, front_3, piece_3);
        lemma_holds_at_split(data, at, front_2, piece_2);
        lemma_holds_at_split(data, at, front_1, piece_1);
        EntityId::lemma_round_trip(value.entity_id, None, data, at);
        u32::lemma_round_trip(value.group_id, None, data, at + front_1.len());
        String::lemma_round_trip(value.name, Some(24), data, at + front_2.len());
        String::lemma_round_trip(value.title, Some(24), data, at + front_3.len());
    }
}

#[derive(Clone, Copy, Debug)]
pub struct SpriteChangePacket {
    pub account_id: AccountId,
    pub sprite_type: u8,
    pub value: u32,
    pub value2: u32,
}

impl Packet for SpriteChangePacket {
    type Model = SpriteChangePacket;

    const PACKET_NAME: &'static str = "SpriteChangePacket";

    const IS_PING: bool = false;

    open spec fn model(&self) -> SpriteChangePacket {
        *self
    }

    open spec fn packet_header() -> u16 {
        0x01d7
    }

    #[verifier::opaque]
    open spec fn payload_decoding(data: Seq<u8>, at: int) -> Result<
        (SpriteChangePacket, nat),
        ConversionError,
    > {
        let account_id = AccountId::decoding(data, at, None);
        let at_sprite_type = behind(at, account_id);
        let sprite_type = u8::decoding(data, at_sprite_type, None);
        let at_value_field = behind(at_sprite_type, sprite_type);
        let value_field = u32::decoding(data, at_value_field, None);
        let at_value2 = behind(at_value_field, value_field);
        let value2 = u32::decoding(data, at_value2, None);
        let behind_all = behind(at_value2, value2);
        if account_id is Err {
            Err(account_id->Err_0)
        } else if sprite_type is Err {
            Err(sprite_type->Err_0)
        } else if value_field is Err {
            Err(value_field->Err_0)
        } else if value2 is Err {
            Err(value2->Err_0)
        } else {
            Ok(
                (
                    SpriteChangePacket {
                        account_id: account_id->Ok_0.0,
                        sprite_type: sprite_type->Ok_0.0,
                        value: value_field->Ok_0.0,
                        value2: value2->Ok_0.0,
                    },
                    (behind_all - at) as nat,
                ),
            )
        }
    }

    open spec fn encodable(value: SpriteChangePacket) -> bool {
        true
    }

    #[verifier::opaque]
    open spec fn payload_encoding(value: SpriteChangePacket) -> Seq<u8> {
        AccountId::encoding(value.account_id, None)
            + u8::encoding(value.sprite_type, None)
            + u32::encoding(value.value, None)
            + u32::encoding(value.value2, None)
    }

    fn header() -> (header: u16) {
        0x01d7
    }

    fn payload_from_bytes(byte_stream: &mut ByteStream) -> (result: Result<
        Self,
        ConversionError,
    >) {
        proof {
            reveal(<SpriteChangePacket as Packet>::payload_decoding);
        }
        let mut cursor = byte_stream.fork();
        let account_id = AccountId::from_bytes(&mut cursor, None)?;
        let sprite_type = u8::from_bytes(&mut cursor, None)?;
        let value_field = u32::from_bytes(&mut cursor, None)?;
        let value2 = u32::from_bytes(&mut cursor, None)?;
        byte_stream.follow(&cursor);
        Ok(SpriteChangePacket { account_id, sprite_type, value: value_field, value2 })
    }

    fn payload_to_bytes(&self) -> (bytes: Vec<u8>) {
        proof {
            reveal(<SpriteChangePacket as Packet>::payload_encoding);
        }
        let mut bytes = self.account_id.to_bytes(None);
        let mut piece = self.sprite_type.to_bytes(None);
        bytes.append(&mut piece);
        let mut piece = self.value.to_bytes(None);
        bytes.append(&mut piece);
        let mut piece = self.value2.to_bytes(None);
        bytes.append(&mut piece);
        bytes
    }

    proof fn lemma_payload_round_trip(value: SpriteChangePacket, data: Seq<u8>, at: int) {
        reveal(<SpriteChangePacket as Packet>::payload_decoding);
        reveal(<SpriteChangePacket as Packet>::payload_encoding);
        let piece_0 = AccountId::encoding(value.account_id, None);
        let piece_1 = u8::encoding(value.sprite_type, None);
        let piece_2 = u32::encoding(value.value, None);
        let piece_3 = u32::encoding(value.value2, None);
        let front_1 = piece_0;
        let front_2 = front_1 + piece_1;
        let front_3 = front_2 + piece_2;
        lemma_holds_at_split(data, at, front_3, piece_3);
        lemma_holds_at_split(data, at, front_2, piece_2);
        lemma_holds_at_split(data, at, front_1, piece_1);
        AccountId::lemma_round_trip(value.account_id, None, data, at);
        u8::lemma_round_trip(value.sprite_type, None, data, at + front_1.len());
        u32::lemma_round_trip(value.value, None, data, at + front_2.len());
        u32::lemma_round_trip(value.value2, None, data, at + front_3.len());
    }
}

#[derive(Clone, Copy, Debug)]
pub struct DisplayEmotionPacket {
    pub entity_id: EntityId,
    pub emotion: u8,
}

impl Packet for DisplayEmotionPacket {
    type Model = DisplayEmotionPacket;

    const PACKET_NAME: &'static str = "DisplayEmotionPacket";

    const IS_PING: bool = false;

    open spec fn model(&self) -> DisplayEmotionPacket {
        *self
    }

    open spec fn packet_header() -> u16 {
        0x00c0
    }

    #[verifier::opaque]
    open spec fn payload_decoding(data: Seq<u8>, at: int) -> Result<
        (DisplayEmotionPacket, nat),
        ConversionError,
    > {
        let entity_id = EntityId::decoding(data, at, None);
        let at_emotion = behind(at, entity_id);
        let emotion = u8::decoding(data, at_emotion, None);
        let behind_all = behind(at_emotion, emotion);
        if entity_id is Err {
            Err(entity_id->Err_0)
        } else if emotion is Err {
            Err(emotion->Err_0)
        } else {
            Ok(
                (
                    DisplayEmotionPacket {
                        entity_id: entity_id->Ok_0.0,
                        emotion: emotion->Ok_0.0,
                    },
                    (behind_all - at) as nat,
                ),
            )
        }
    }

    open spec fn encodable(value: DisplayEmotionPacket) -> bool {
        true
    }

    #[verifier::opaque]
    open spec fn payload_encoding(value: DisplayEmotionPacket) -> Seq<u8> {
        EntityId::encoding(value.entity_id, None) + u8::encoding(value.emotion, None)
    }

    fn header() -> (header: u16) {
        0x00c0
    }

    fn payload_from_bytes(byte_stream: &mut ByteStream) -> (result: Result<
        Self,
        ConversionError,
    >) {
        proof {
            reveal(<DisplayEmotionPacket as Packet>::payload_decoding);
        }
        let mut cursor = byte_stream.fork();
        let entity_id = EntityId::from_bytes(&mut cursor, None)?;
        let emotion = u8::from_bytes(&mut cursor, None)?;
        byte_stream.follow(&cursor);
        Ok(DisplayEmotionPacket { entity_id, emotion })
    }

    fn payload_to_bytes(&self) -> (bytes: Vec<u8>) {
        proof {
            reveal(<DisplayEmotionPacket as Packet>::payload_encoding);
        }
        let mut bytes = self.entity_id.to_bytes(None);
        let mut piece = self.emotion.to_bytes(None);
        bytes.append(&mut piece);
        bytes
    }

    proof fn lemma_payload_round_trip(value: DisplayEmotionPacket, data: Seq<u8>, at: int) {
        reveal(<DisplayEmotionPacket as Packet>::payload_decoding);
        reveal(<DisplayEmotionPacket as Packet>::payload_encoding);
        let piece_0 = EntityId::encoding(value.entity_id, None);
        let piece_1 = u8::encoding(value.emotion, None);
        let front_1 = piece_0;
        lemma_holds_at_split(data, at, front_1, piece_1);
        EntityId::lemma_round_trip(value.entity_id, None, data, at);
        u8::lemma_round_trip(value.emotion, None, data, at + front_1.len());
    }
}

#[derive(Clone, Copy, Debug)]
pub struct UpdateEntityHealthPointsPacket {
    pub entity_id: EntityId,
    pub health_points: u32,
    pub maximum_health_points: u32,
}

impl Packet for UpdateEntityHealthPointsPacket {
    type Model = UpdateEntityHealthPointsPacket;

    const PACKET_NAME: &'static str = "UpdateEntityHealthPointsPacket";

    const IS_PING: bool = false;

    open spec fn model(&self) -> UpdateEntityHealthPointsPacket {
        *self
    }

    open spec fn packet_header() -> u16 {
        0x0977
    }

    #[verifier::opaque]
    open spec fn payload_decoding(data: Seq<u8>, at: int) -> Result<
        (UpdateEntityHealthPointsPacket, nat),
        ConversionError,
    > {
        let entity_id = EntityId::decoding(data, at, None);
        let at_health_points = behind(at, entity_id);
        let health_points = u32::decoding(data, at_health_points, None);
        let at_maximum_health_points = behind(at_health_points, health_points);
        let maximum_health_points = u32::decoding(data, at_maximum_health_points, None);
        let behind_all = behind(at_maximum_health_points, maximum_health_points);
        if entity_id is Err {
            Err(entity_id->Err_0)
        } else if health_points is Err {
            Err(health_points->Err_0)
        } else if maximum_health_points is Err {
            Err(maximum_health_points->Err_0)
        } else {
            Ok(
                (
                    UpdateEntityHealthPointsPacket {
                        entity_id: entity_id->Ok_0.0,
                        health_points: health_points->Ok_0.0,
                        maximum_health_points: maximum_health_points->Ok_0.0,
                    },
                    (behind_all - at) as nat,
                ),
            )
        }
    }

    open spec fn encodable(value: UpdateEntityHealthPointsPacket) -> bool {
        true
    }

    #[verifier::opaque]
    open spec fn payload_encoding(value: UpdateEntityHealthPointsPacket) -> Seq<u8> {
        EntityId::encoding(value.entity_id, None)
            + u32::encoding(value.health_points, None)
            + u32::encoding(value.maximum_health_points, None)
    }

    fn header() -> (header: u16) {
        0x0977
    }

    fn payload_from_bytes(byte_stream: &mut ByteStream) -> (result: Result<
        Self,
        ConversionError,
    >) {
        proof {
            reveal(<UpdateEntityHealthPointsPacket as Packet>::payload_decoding);
        }
        let mut cursor = byte_stream.fork();
        let entity_id = EntityId::from_bytes(&mut cursor, None)?;
        let health_points = u32::from_bytes(&mut cursor, None)?;
        let maximum_health_points = u32::from_bytes(&mut cursor, None)?;
        byte_stream.follow(&cursor);
        Ok(UpdateEntityHealthPointsPacket { entity_id, health_points, maximum_health_points })
    }

    fn payload_to_bytes(&self) -> (bytes: Vec<u8>) {
        proof {
            reveal(<UpdateEntityHealthPointsPacket as Packet>::payload_encoding);
        }
        let mut bytes = self.entity_id.to_bytes(None);
        let mut piece = self.health_points.to_bytes(None);
        bytes.append(&mut piece);
        let mut piece = self.maximum_health_points.to_bytes(None);
        bytes.append(&mut piece);
        bytes
    }

    proof fn lemma_payload_round_trip(
        value: UpdateEntityHealthPointsPacket,
        data: Seq<u8>,
        at: int,
    ) {
        reveal(<UpdateEntityHealthPointsPacket as Packet>::payload_decoding);
        reveal(<UpdateEntityHealthPointsPacket as Packet>::payload_encoding);
        let piece_0 = EntityId::encoding(value.entity_id, None);
        let piece_1 = u32::encoding(value.health_points, None);
        let piece_2 = u32::encoding(value.maximum_health_points, None);
        let front_1 = piece_0;
        let front_2 = front_1 + piece_1;
        lemma_holds_at_split(data, at, front_2, piece_2);
        lemma_holds_at_split(data, at, front_1, piece_1);
        EntityId::lemma_round_trip(value.entity_id, None, data, at);
        u32::lemma_round_trip(value.health_points, None, data, at + front_1.len());
        u32::lemma_round_trip(value.maximum_health_points, None, data, at + front_2.len());
    }
}

#[derive(Clone, Copy, Debug, PartialEq, Eq, Structural)]
pub enum DissapearanceReason {
    OutOfSight,
    Died,
    LoggedOut,
    Teleported,
    TrickDead,
}

impl DissapearanceReason {
    /// The number that stands for a variant on the wire.
    pub open spec fn code(self) -> u8 {
        match self {
            DissapearanceReason::OutOfSight => 0,
            DissapearanceReason::Died => 1,
            DissapearanceReason::LoggedOut => 2,
            DissapearanceReason::Teleported => 3,
            DissapearanceReason::TrickDead => 4,
        }
    }

    /// The variant that a number stands for.
    pub open spec fn of_code(code: u8) -> Option<DissapearanceReason> {
        if code == 0 {
            Some(DissapearanceReason::OutOfSight)
        } else if code == 1 {
            Some(DissapearanceReason::Died)
        } else if code == 2 {
            Some(DissapearanceReason::LoggedOut)
        } else if code == 3 {
            Some(DissapearanceReason::Teleported)
        } else if code == 4 {
            Some(DissapearanceReason::TrickDead)
        } else {
            None
        }
    }
}

impl ByteConvertable for DissapearanceReason {
    type Model = DissapearanceReason;

    open spec fn model(&self) -> DissapearanceReason {
        *self
    }

    open spec fn accepts(length_hint: Option<usize>) -> bool {
        length_hint is None
    }

    open spec fn decoding(data: Seq<u8>, at: int, length_hint: Option<usize>) -> Result<
        (DissapearanceReason, nat),
        ConversionError,
    > {
        match u8::decoding(data, at, None) {
            Ok((code, length)) => match DissapearanceReason::of_code(code) {
                Some(value) => Ok((value, length)),
                None => Err(ConversionError::Invalid),
            },
            Err(error) => Err(error),
        }
    }

    open spec fn encodable(value: DissapearanceReason, length_hint: Option<usize>) -> bool {
        true
    }

    open spec fn encoding(value: DissapearanceReason, length_hint: Option<usize>) -> Seq<u8> {
        u8::encoding(value.code(), None)
    }

    fn from_bytes(byte_stream: &mut ByteStream, length_hint: Option<usize>) -> (result: Result<
        Self,
        ConversionError,
    >) {
        let mut cursor = byte_stream.fork();
        let code = u8::from_bytes(&mut cursor, None)?;
        let value = match code {
            0 => DissapearanceReason::OutOfSight,
            1 => DissapearanceReason::Died,
            2 => DissapearanceReason::LoggedOut,
            3 => DissapearanceReason::Teleported,
            4 => DissapearanceReason::TrickDead,
            _ => return Err(ConversionError::Invalid),
        };
        byte_stream.follow(&cursor);
        Ok(value)
    }

    fn to_bytes(&self, length_hint: Option<usize>) -> (bytes: Vec<u8>) {
        let code: u8 = match self {
            DissapearanceReason::OutOfSight => 0,
            DissapearanceReason::Died => 1,
            DissapearanceReason::LoggedOut => 2,
            DissapearanceReason::Teleported => 3,
            DissapearanceReason::TrickDead => 4,
        };
        code.to_bytes(None)
    }

    proof fn lemma_round_trip(
        value: DissapearanceReason,
        length_hint: Option<usize>,
        data: Seq<u8>,
        at: int,
    ) {
        u8::lemma_round_trip(value.code(), None, data, at);
    }
}

impl FixedByteSize for DissapearanceReason {
    open spec fn size() -> nat {
        1
    }

    fn size_in_bytes() -> (size: usize) {
        1
    }

    proof fn lemma_fixed_size(data: Seq<u8>, at: int, value: DissapearanceReason) {
        assert(Self::size() == 1);
    }
}

#[derive(Clone, Copy, Debug)]
pub struct EntityDisappearedPacket {
    pub entity_id: EntityId,
    pub reason: DissapearanceReason,
}

impl Packet for EntityDisappearedPacket {
    type Model = EntityDisappearedPacket;

    const PACKET_NAME: &'static str = "EntityDisappearedPacket";

    const IS_PING: bool = false;

    open spec fn model(&self) -> EntityDisappearedPacket {
        *self
    }

    open spec fn packet_header() -> u16 {
        0x0080
    }

    #[verifier::opaque]
    open spec fn payload_decoding(data: Seq<u8>, at: int) -> Result<
        (EntityDisappearedPacket, nat),
        ConversionError,
    > {
        let entity_id = EntityId::decoding(data, at, None);
        let at_reason = behind(at, entity_id);
        let reason = DissapearanceReason::decoding(data, at_reason, None);
        let behind_all = behind(at_reason, reason);
        if entity_id is Err {
            Err(entity_id->Err_0)
        } else if reason is Err {
            Err(reason->Err_0)
        } else {
            Ok(
                (
                    EntityDisappearedPacket {
                        entity_id: entity_id->Ok_0.0,
                        reason: reason->Ok_0.0,
                    },
                    (behind_all - at) as nat,
                ),
            )
        }
    }

    open spec fn encodable(value: EntityDisappearedPacket) -> bool {
        true
    }

    #[verifier::opaque]
    open spec fn payload_encoding(value: EntityDisappearedPacket) -> Seq<u8> {
        EntityId::encoding(value.entity_id, None)
            + DissapearanceReason::encoding(value.reason, None)
    }

    fn header() -> (header: u16) {
        0x0080
    }

    fn payload_from_bytes(byte_stream: &mut ByteStream) -> (result: Result<
        Self,
        ConversionError,
    >) {
        proof {
            reveal(<EntityDisappearedPacket as Packet>::payload_decoding);
        }
        let mut cursor = byte_stream.fork();
        let entity_id = EntityId::from_bytes(&mut cursor, None)?;
        let reason = DissapearanceReason::from_bytes(&mut cursor, None)?;
        byte_stream.follow(&cursor);
        Ok(EntityDisappearedPacket { entity_id, reason })
    }

    fn payload_to_bytes(&self) -> (bytes: Vec<u8>) {
        proof {
            reveal(<EntityDisappearedPacket as Packet>::payload_encoding);
        }
        let mut bytes = self.entity_id.to_bytes(None);
        let mut piece = self.reason.to_bytes(None);
        bytes.append(&mut piece);
        bytes
    }

    proof fn lemma_payload_round_trip(value: EntityDisappearedPacket, data: Seq<u8>, at: int) {
        reveal(<EntityDisappearedPacket as Packet>::payload_decoding);
        reveal(<EntityDisappearedPacket as Packet>::payload_encoding);
        let piece_0 = EntityId::encoding(value.entity_id, None);
        let piece_1 = DissapearanceReason::encoding(value.reason, None);
        let front_1 = piece_0;
        lemma_holds_at_split(data, at, front_1, piece_1);
        EntityId::lemma_round_trip(value.entity_id, None, data, at);
        DissapearanceReason::lemma_round_trip(value.reason, None, data, at + front_1.len());
    }
}

#[derive(Clone, Debug)]
pub struct MovingEntityAppearedPacket {
    pub packet_length: u16,
    pub object_type: u8,
    pub entity_id: EntityId,
    pub group_id: u32,
    pub movement_speed: u16,
    pub body_state: u16,
    pub health_state: u16,
    pub effect_state: u32,
    pub job: u16,
    pub head: u16,
    pub weapon: u32,
    pub shield: u32,
    pub accessory: u16,
    pub move_start_time: u32,
    pub accessory2: u16,
    pub accessory3: u16,
    pub head_palette: u16,
    pub body_palette: u16,
    pub head_direction: u16,
    pub robe: u16,
    pub guild_id: u32,
    pub emblem_version: u16,
    pub honor: u16,
    pub virtue: u32,
    pub is_pk_mode_on: u8,
    pub sex: Sex,
    pub position: WorldPosition2,
    pub x_size: u8,
    pub y_size: u8,
    pub c_level: u16,
    pub font: u16,
    pub maximum_health_points: i32,
    pub health_points: i32,
    pub is_boss: u8,
    pub body: u16,
    pub name: String,
}

/// What a [`MovingEntityAppearedPacket`] stands for.
pub struct MovingEntityAppearedPacketModel {
    pub packet_length: u16,
    pub object_type: u8,
    pub entity_id: EntityId,
    pub group_id: u32,
    pub movement_speed: u16,
    pub body_state: u16,
    pub health_state: u16,
    pub effect_state: u32,
    pub job: u16,
    pub head: u16,
    pub weapon: u32,
    pub shield: u32,
    pub accessory: u16,
    pub move_start_time: u32,
    pub accessory2: u16,
    pub accessory3: u16,
    pub head_palette: u16,
    pub body_palette: u16,
    pub head_direction: u16,
    pub robe: u16,
    pub guild_id: u32,
    pub emblem_version: u16,
    pub honor: u16,
    pub virtue: u32,
    pub is_pk_mode_on: u8,
    pub sex: Sex,
    pub position: WorldPosition2,
    pub x_size: u8,
    pub y_size: u8,
    pub c_level: u16,
    pub font: u16,
    pub maximum_health_points: i32,
    pub health_points: i32,
    pub is_boss: u8,
    pub body: u16,
    pub name: Seq<char>,
}

impl MovingEntityAppearedPacket {
    /// What the fields from `object_type` to `job` decode to.
    #[verifier::opaque]
    pub open spec fn decoding_part_1(data: Seq<u8>, at: int) -> Result<
        ((u8, EntityId, u32, u16, u16, u16, u32, u16), nat),
        ConversionError,
    > {
        let object_type = u8::decoding(data, at, None);
        let at_entity_id = behind(at, object_type);
        let entity_id = EntityId::decoding(data, at_entity_id, None);
        let at_group_id = behind(at_entity_id, entity_id);
        let group_id = u32::decoding(data, at_group_id, None);
        let at_movement_speed = behind(at_group_id, group_id);
        let movement_speed = u16::decoding(data, at_movement_speed, None);
        let at_body_state = behind(at_movement_speed, movement_speed);
        let body_state = u16::decoding(data, at_body_state, None);
        let at_health_state = behind(at_body_state, body_state);
        let health_state = u16::decoding(data, at_health_state, None);
        let at_effect_state = behind(at_health_state, health_state);
        let effect_state = u32::decoding(data, at_effect_state, None);
        let at_job = behind(at_effect_state, effect_state);
        let job = u16::decoding(data, at_job, None);
        let behind_all = behind(at_job, job);
        if object_type is Err {
            Err(object_type->Err_0)
        } else if entity_id is Err {
            Err(entity_id->Err_0)
        } else if group_id is Err {
            Err(group_id->Err_0)
        } else if movement_speed is Err {
            Err(movement_speed->Err_0)
        } else if body_state is Err {
            Err(body_state->Err_0)
        } else if health_state is Err {
            Err(health_state->Err_0)
        } else if effect_state is Err {
            Err(effect_state->Err_0)
        } else if job is Err {
            Err(job->Err_0)
        } else {
            Ok(
                (
                    (
                        object_type->Ok_0.0,
                        entity_id->Ok_0.0,
                        group_id->Ok_0.0,
                        movement_speed->Ok_0.0,
                        body_state->Ok_0.0,
                        health_state->Ok_0.0,
                        effect_state->Ok_0.0,
                        job->Ok_0.0,
                    ),
                    (behind_all - at) as nat,
                ),
            )
        }
    }

    /// The wire form of the fields from `object_type` to `job`.
    #[verifier::opaque]
    pub open spec fn encoding_part_1(value: MovingEntityAppearedPacketModel) -> Seq<u8> {
        u8::encoding(value.object_type, None)
            + EntityId::encoding(value.entity_id, None)
            + u32::encoding(value.group_id, None)
            + u16::encoding(value.movement_speed, None)
            + u16::encoding(value.body_state, None)
            + u16::encoding(value.health_state, None)
            + u32::encoding(value.effect_state, None)
            + u16::encoding(value.job, None)
    }

    fn decode_part_1(byte_stream: &mut ByteStream) -> (result: Result<
        (u8, EntityId, u32, u16, u16, u16, u32, u16),
        ConversionError,
    >)
        ensures
            final(byte_stream).data() == old(byte_stream).data(),
            final(byte_stream).version() == old(byte_stream).version(),
            match Self::decoding_part_1(old(byte_stream).data(), old(byte_stream).offset() as int) {
                Ok((value, length)) => {
                    &&& result is Ok
                    &&& result->Ok_0.0.model() == value.0
                    &&& result->Ok_0.1.model() == value.1
                    &&& result->Ok_0.2.model() == value.2
                    &&& result->Ok_0.3.model() == value.3
                    &&& result->Ok_0.4.model() == value.4
                    &&& result->Ok_0.5.model() == value.5
                    &&& result->Ok_0.6.model() == value.6
                    &&& result->Ok_0.7.model() == value.7
                    &&& final(byte_stream).offset() == old(byte_stream).offset() + length
                },
                Err(error) => {
                    &&& result is Err
                    &&& result->Err_0 == error
                    &&& final(byte_stream).offset() == old(byte_stream).offset()
                },
            },
    {
        proof {
            reveal(MovingEntityAppearedPacket::decoding_part_1);
        }
        let mut cursor = byte_stream.fork();
        let object_type = u8::from_bytes(&mut cursor, None)?;
        let entity_id = EntityId::from_bytes(&mut cursor, None)?;
        let group_id = u32::from_bytes(&mut cursor, None)?;
        let movement_speed = u16::from_bytes(&mut cursor, None)?;
        let body_state = u16::from_bytes(&mut cursor, None)?;
        let health_state = u16::from_bytes(&mut cursor, None)?;
        let effect_state = u32::from_bytes(&mut cursor, None)?;
        let job = u16::from_bytes(&mut cursor, None)?;
        byte_stream.follow(&cursor);
        Ok((
            object_type,
            entity_id,
            group_id,
            movement_speed,
            body_state,
            health_state,
            effect_state,
            job,
        ))
    }

    fn encode_part_1(&self) -> (bytes: Vec<u8>)
        ensures
            bytes@ == Self::encoding_part_1(self.model()),
    {
        proof {
            reveal(MovingEntityAppearedPacket::encoding_part_1);
        }
        let mut bytes = self.object_type.to_bytes(None);
        let mut piece = self.entity_id.to_bytes(None);
        bytes.append(&mut piece);
        let mut piece = self.group_id.to_bytes(None);
        bytes.append(&mut piece);
        let mut piece = self.movement_speed.to_bytes(None);
        bytes.append(&mut piece);
        let mut piece = self.body_state.to_bytes(None);
        bytes.append(&mut piece);
        let mut piece = self.health_state.to_bytes(None);
        bytes.append(&mut piece);
        let mut piece = self.effect_state.to_bytes(None);
        bytes.append(&mut piece);
        let mut piece = self.job.to_bytes(None);
        bytes.append(&mut piece);
        bytes
    }

    #[verifier::rlimit(50)]
    proof fn lemma_round_trip_part_1(value: MovingEntityAppearedPacketModel, data: Seq<u8>, at: int)
        requires
            holds_at(data, at, Self::encoding_part_1(value)),
        ensures
            Self::decoding_part_1(data, at) == Ok::<
                ((u8, EntityId, u32, u16, u16, u16, u32, u16), nat),
                ConversionError,
            >(
                (
                    (
                        value.object_type,
                        value.entity_id,
                        value.group_id,
                        value.movement_speed,
                        value.body_state,
                        value.health_state,
                        value.effect_state,
                        value.job,
                    ),
                    Self::encoding_part_1(value).len(),
                ),
            ),
    {
        reveal(MovingEntityAppearedPacket::decoding_part_1);
        reveal(MovingEntityAppearedPacket::encoding_part_1);
        let piece_0 = u8::encoding(value.object_type, None);
        let piece_1 = EntityId::encoding(value.entity_id, None);
        let piece_2 = u32::encoding(value.group_id, None);
        let piece_3 = u16::encoding(value.movement_speed, None);
        let piece_4 = u16::encoding(value.body_state, None);
        let piece_5 = u16::encoding(value.health_state, None);
        let piece_6 = u32::encoding(value.effect_state, None);
        let piece_7 = u16::encoding(value.job, None);
        let front_1 = piece_0;
        let front_2 = front_1 + piece_1;
        let front_3 = front_2 + piece_2;
        let front_4 = front_3 + piece_3;
        let front_5 = front_4 + piece_4;
        let front_6 = front_5 + piece_5;
        let front_7 = front_6 + piece_6;
        lemma_holds_at_split(data, at, front_7, piece_7);
        lemma_holds_at_split(data, at, front_6, piece_6);
        lemma_holds_at_split(data, at, front_5, piece_5);
        lemma_holds_at_split(data, at, front_4, piece_4);
        lemma_holds_at_split(data, at, front_3, piece_3);
        lemma_holds_at_split(data, at, front_2, piece_2);
        lemma_holds_at_split(data, at, front_1, piece_1);
        u8::lemma_round_trip(value.object_type, None, data, at);
        EntityId::lemma_round_trip(value.entity_id, None, data, at + front_1.len());
        u32::lemma_round_trip(value.group_id, None, data, at + front_2.len());
        u16::lemma_round_trip(value.movement_speed, None, data, at + front_3.len());
        u16::lemma_round_trip(value.body_state, None, data, at + front_4.len());
        u16::lemma_round_trip(value.health_state, None, data, at + front_5.len());
        u32::lemma_round_trip(value.effect_state, None, data, at + front_6.len());
        u16::lemma_round_trip(value.job, None, data, at + front_7.len());
    }

    proof fn lemma_size_part_1(data: Seq<u8>, at: int, value: MovingEntityAppearedPacketModel)
        ensures
            Self::decoding_part_1(data, at) matches Ok((_, length)) ==> length == 21,
            Self::encoding_part_1(value).len() == 21,
    {
        reveal(MovingEntityAppearedPacket::decoding_part_1);
        reveal(MovingEntityAppearedPacket::encoding_part_1);
        u8::lemma_fixed_size(data, at, value.object_type);
        EntityId::lemma_fixed_size(data, at + 1, value.entity_id);
        u32::lemma_fixed_size(data, at + 5, value.group_id);
        u16::lemma_fixed_size(data, at + 9, value.movement_speed);
        u16::lemma_fixed_size(data, at + 11, value.body_state);
        u16::lemma_fixed_size(data, at + 13, value.health_state);
        u32::lemma_fixed_size(data, at + 15, value.effect_state);
        u16::lemma_fixed_size(data, at + 19, value.job);
    }

    /// What the fields from `head` to `head_palette` decode to.
    #[verifier::opaque]
    pub open spec fn decoding_part_2(data: Seq<u8>, at: int) -> Result<
        ((u16, u32, u32, u16, u32, u16, u16, u16), nat),
        ConversionError,
    > {
        let head = u16::decoding(data, at, None);
        let at_weapon = behind(at, head);
        let weapon = u32::decoding(data, at_weapon, None);
        let at_shield = behind(at_weapon, weapon);
        let shield = u32::decoding(data, at_shield, None);
        let at_accessory = behind(at_shield, shield);
        let accessory = u16::decoding(data, at_accessory, None);
        let at_move_start_time = behind(at_accessory, accessory);
        let move_start_time = u32::decoding(data, at_move_start_time, None);
        let at_accessory2 = behind(at_move_start_time, move_start_time);
        let accessory2 = u16::decoding(data, at_accessory2, None);
        let at_accessory3 = behind(at_accessory2, accessory2);
        let accessory3 = u16::decoding(data, at_accessory3, None);
        let at_head_palette = behind(at_accessory3, accessory3);
        let head_palette = u16::decoding(data, at_head_palette, None);
        let behind_all = behind(at_head_palette, head_palette);
        if head is Err {
            Err(head->Err_0)
        } else if weapon is Err {
            Err(weapon->Err_0)
        } else if shield is Err {
            Err(shield->Err_0)
        } else if accessory is Err {
            Err(accessory->Err_0)
        } else if move_start_time is Err {
            Err(move_start_time->Err_0)
        } else if accessory2 is Err {
            Err(accessory2->Err_0)
        } else if accessory3 is Err {
            Err(accessory3->Err_0)
        } else if head_palette is Err {
            Err(head_palette->Err_0)
        } else {
            Ok(
                (
                    (
                        head->Ok_0.0,
                        weapon->Ok_0.0,
                        shield->Ok_0.0,
                        accessory->Ok_0.0,
                        move_start_time->Ok_0.0,
                        accessory2->Ok_0.0,
                        accessory3->Ok_0.0,
                        head_palette->Ok_0.0,
                    ),
                    (behind_all - at) as nat,
                ),
            )
        }
    }

    /// The wire form of the fields from `head` to `head_palette`.
    #[verifier::opaque]
    pub open spec fn encoding_part_2(value: MovingEntityAppearedPacketModel) -> Seq<u8> {
        u16::encoding(value.head, None)
            + u32::encoding(value.weapon, None)
            + u32::encoding(value.shield, None)
            + u16::encoding(value.accessory, None)
            + u32::encoding(value.move_start_time, None)
            + u16::encoding(value.accessory2, None)
            + u16::encoding(value.accessory3, None)
            + u16::encoding(value.head_palette, None)
    }

    fn decode_part_2(byte_stream: &mut ByteStream) -> (result: Result<
        (u16, u32, u32, u16, u32, u16, u16, u16),
        ConversionError,
    >)
        ensures
            final(byte_stream).data() == old(byte_stream).data(),
            final(byte_stream).version() == old(byte_stream).version(),
            match Self::decoding_part_2(old(byte_stream).data(), old(byte_stream).offset() as int) {
                Ok((value, length)) => {
                    &&& result is Ok
                    &&& result->Ok_0.0.model() == value.0
                    &&& result->Ok_0.1.model() == value.1
                    &&& result->Ok_0.2.model() == value.2
                    &&& result->Ok_0.3.model() == value.3
                    &&& result->Ok_0.4.model() == value.4
                    &&& result->Ok_0.5.model() == value.5
                    &&& result->Ok_0.6.model() == value.6
                    &&& result->Ok_0.7.model() == value.7
                    &&& final(byte_stream).offset() == old(byte_stream).offset() + length
                },
                Err(error) => {
                    &&& result is Err
                    &&& result->Err_0 == error
                    &&& final(byte_stream).offset() == old(byte_stream).offset()
                },
            },
    {
        proof {
            reveal(MovingEntityAppearedPacket::decoding_part_2);
        }
        let mut cursor = byte_stream.fork();
        let head = u16::from_bytes(&mut cursor, None)?;
        let weapon = u32::from_bytes(&mut cursor, None)?;
        let shield = u32::from_bytes(&mut cursor, None)?;
        let accessory = u16::from_bytes(&mut cursor, None)?;
        let move_start_time = u32::from_bytes(&mut cursor, None)?;
        let accessory2 = u16::from_bytes(&mut cursor, None)?;
        let accessory3 = u16::from_bytes(&mut cursor, None)?;
        let head_palette = u16::from_bytes(&mut cursor, None)?;
        byte_stream.follow(&cursor);
        Ok((head, weapon, shield, accessory, move_start_time, accessory2, accessory3, head_palette))
    }

    fn encode_part_2(&self) -> (bytes: Vec<u8>)
        ensures
            bytes@ == Self::encoding_part_2(self.model()),
    {
        proof {
            reveal(MovingEntityAppearedPacket::encoding_part_2);
        }
        let mut bytes = self.head.to_bytes(None);
        let mut piece = self.weapon.to_bytes(None);
        bytes.append(&mut piece);
        let mut piece = self.shield.to_bytes(None);
        bytes.append(&mut piece);
        let mut piece = self.accessory.to_bytes(None);
        bytes.append(&mut piece);
        let mut piece = self.move_start_time.to_bytes(None);
        bytes.append(&mut piece);
        let mut piece = self.accessory2.to_bytes(None);
        bytes.append(&mut piece);
        let mut piece = self.accessory3.to_bytes(None);
        bytes.append(&mut piece);
        let mut piece = self.head_palette.to_bytes(None);
        bytes.append(&mut piece);
        bytes
    }

    #[verifier::rlimit(50)]
    proof fn lemma_round_trip_part_2(value: MovingEntityAppearedPacketModel, data: Seq<u8>, at: int)
        requires
            holds_at(data, at, Self::encoding_part_2(value)),
        ensures
            Self::decoding_part_2(data, at) == Ok::<
                ((u16, u32, u32, u16, u32, u16, u16, u16), nat),
                ConversionError,
            >(
                (
                    (
                        value.head,
                        value.weapon,
                        value.shield,
                        value.accessory,
                        value.move_start_time,
                        value.accessory2,
                        value.accessory3,
                        value.head_palette,
                    ),
                    Self::encoding_part_2(value).len(),
                ),
            ),
    {
        reveal(MovingEntityAppearedPacket::decoding_part_2);
        reveal(MovingEntityAppearedPacket::encoding_part_2);
        let piece_0 = u16::encoding(value.head, None);
        let piece_1 = u32::encoding(value.weapon, None);
        let piece_2 = u32::encoding(value.shield, None);
        let piece_3 = u16::encoding(value.accessory, None);
        let piece_4 = u32::encoding(value.move_start_time, None);
        let piece_5 = u16::encoding(value.accessory2, None);
        let piece_6 = u16::encoding(value.accessory3, None);
        let piece_7 = u16::encoding(value.head_palette, None);
        let front_1 = piece_0;
        let front_2 = front_1 + piece_1;
        let front_3 = front_2 + piece_2;
        let front_4 = front_3 + piece_3;
        let front_5 = front_4 + piece_4;
        let front_6 = front_5 + piece_5;
        let front_7 = front_6 + piece_6;
        lemma_holds_at_split(data, at, front_7, piece_7);
        lemma_holds_at_split(data, at, front_6, piece_6);
        lemma_holds_at_split(data, at, front_5, piece_5);
        lemma_holds_at_split(data, at, front_4, piece_4);
        lemma_holds_at_split(data, at, front_3, piece_3);
        lemma_holds_at_split(data, at, front_2, piece_2);
        lemma_holds_at_split(data, at, front_1, piece_1);
        u16::lemma_round_trip(value.head, None, data, at);
        u32::lemma_round_trip(value.weapon, None, data, at + front_1.len());
        u32::lemma_round_trip(value.shield, None, data, at + front_2.len());
        u16::lemma_round_trip(value.accessory, None, data, at + front_3.len());
        u32::lemma_round_trip(value.move_start_time, None, data, at + front_4.len());
        u16::lemma_round_trip(value.accessory2, None, data, at + front_5.len());
        u16::lemma_round_trip(value.accessory3, None, data, at + front_6.len());
        u16::lemma_round_trip(value.head_palette, None, data, at + front_7.len());
    }

    proof fn lemma_size_part_2(data: Seq<u8>, at: int, value: MovingEntityAppearedPacketModel)
        ensures
            Self::decoding_part_2(data, at) matches Ok((_, length)) ==> length == 22,
            Self::encoding_part_2(value).len() == 22,
    {
        reveal(MovingEntityAppearedPacket::decoding_part_2);
        reveal(MovingEntityAppearedPacket::encoding_part_2);
        u16::lemma_fixed_size(data, at, value.head);
        u32::lemma_fixed_size(data, at + 2, value.weapon);
        u32::lemma_fixed_size(data, at + 6, value.shield);
        u16::lemma_fixed_size(data, at + 10, value.accessory);
        u32::lemma_fixed_size(data, at + 12, value.move_start_time);
        u16::lemma_fixed_size(data, at + 16, value.accessory2);
        u16::lemma_fixed_size(data, at + 18, value.accessory3);
        u16::lemma_fixed_size(data, at + 20, value.head_palette);
    }

    /// What the fields from `body_palette` to `is_pk_mode_on` decode to.
    #[verifier::opaque]
    pub open spec fn decoding_part_3(data: Seq<u8>, at: int) -> Result<
        ((u16, u16, u16, u32, u16, u16, u32, u8), nat),
        ConversionError,
    > {
        let body_palette = u16::decoding(data, at, None);
        let at_head_direction = behind(at, body_palette);
        let head_direction = u16::decoding(data, at_head_direction, None);
        let at_robe = behind(at_head_direction, head_direction);
        let robe = u16::decoding(data, at_robe, None);
        let at_guild_id = behind(at_robe, robe);
        let guild_id = u32::decoding(data, at_guild_id, None);
        let at_emblem_version = behind(at_guild_id, guild_id);
        let emblem_version = u16::decoding(data, at_emblem_version, None);
        let at_honor = behind(at_emblem_version, emblem_version);
        let honor = u16::decoding(data, at_honor, None);
        let at_virtue = behind(at_honor, honor);
        let virtue = u32::decoding(data, at_virtue, None);
        let at_is_pk_mode_on = behind(at_virtue, virtue);
        let is_pk_mode_on = u8::decoding(data, at_is_pk_mode_on, None);
        let behind_all = behind(at_is_pk_mode_on, is_pk_mode_on);
        if body_palette is Err {
            Err(body_palette->Err_0)
        } else if head_direction is Err {
            Err(head_direction->Err_0)
        } else if robe is Err {
            Err(robe->Err_0)
        } else if guild_id is Err {
            Err(guild_id->Err_0)
        } else if emblem_version is Err {
            Err(emblem_version->Err_0)
        } else if honor is Err {
            Err(honor->Err_0)
        } else if virtue is Err {
            Err(virtue->Err_0)
        } else if is_pk_mode_on is Err {
            Err(is_pk_mode_on->Err_0)
        } else {
            Ok(
                (
                    (
                        body_palette->Ok_0.0,
                        head_direction->Ok_0.0,
                        robe->Ok_0.0,
                        guild_id->Ok_0.0,
                        emblem_version->Ok_0.0,
                        honor->Ok_0.0,
                        virtue->Ok_0.0,
                        is_pk_mode_on->Ok_0.0,
                    ),
                    (behind_all - at) as nat,
                ),
            )
        }
    }

    /// The wire form of the fields from `body_palette` to `is_pk_mode_on`.
    #[verifier::opaque]
    pub open spec fn encoding_part_3(value: MovingEntityAppearedPacketModel) -> Seq<u8> {
        u16::encoding(value.body_palette, None)
            + u16::encoding(value.head_direction, None)
            + u16::encoding(value.robe, None)
            + u32::encoding(value.guild_id, None)
            + u16::encoding(value.emblem_version, None)
            + u16::encoding(value.honor, None)
            + u32::encoding(value.virtue, None)
            + u8::encoding(value.is_pk_mode_on, None)
    }

    fn decode_part_3(byte_stream: &mut ByteStream) -> (result: Result<
        (u16, u16, u16, u32, u16, u16, u32, u8),
        ConversionError,
    >)
        ensures
            final(byte_stream).data() == old(byte_stream).data(),
            final(byte_stream).version() == old(byte_stream).version(),
            match Self::decoding_part_3(old(byte_stream).data(), old(byte_stream).offset() as int) {
                Ok((value, length)) => {
                    &&& result is Ok
                    &&& result->Ok_0.0.model() == value.0
                    &&& result->Ok_0.1.model() == value.1
                    &&& result->Ok_0.2.model() == value.2
                    &&& result->Ok_0.3.model() == value.3
                    &&& result->Ok_0.4.model() == value.4
                    &&& result->Ok_0.5.model() == value.5
                    &&& result->Ok_0.6.model() == value.6
                    &&& result->Ok_0.7.model() == value.7
                    &&& final(byte_stream).offset() == old(byte_stream).offset() + length
                },
                Err(error) => {
                    &&& result is Err
                    &&& result->Err_0 == error
                    &&& final(byte_stream).offset() == old(byte_stream).offset()
                },
            },
    {
        proof {
            reveal(MovingEntityAppearedPacket::decoding_part_3);
        }
        let mut cursor = byte_stream.fork();
        let body_palette = u16::from_bytes(&mut cursor, None)?;
        let head_direction = u16::from_bytes(&mut cursor, None)?;
        let robe = u16::from_bytes(&mut cursor, None)?;
        let guild_id = u32::from_bytes(&mut cursor, None)?;
        let emblem_version = u16::from_bytes(&mut cursor, None)?;
        let honor = u16::from_bytes(&mut cursor, None)?;
        let virtue = u32::from_bytes(&mut cursor, None)?;
        let is_pk_mode_on = u8::from_bytes(&mut cursor, None)?;
        byte_stream.follow(&cursor);
        Ok((
            body_palette,
            head_direction,
            robe,
            guild_id,
            emblem_version,
            honor,
            virtue,
            is_pk_mode_on,
        ))
    }

    fn encode_part_3(&self) -> (bytes: Vec<u8>)
        ensures
            bytes@ == Self::encoding_part_3(self.model()),
    {
        proof {
            reveal(MovingEntityAppearedPacket::encoding_part_3);
        }
        let mut bytes = self.body_palette.to_bytes(None);
        let mut piece = self.head_direction.to_bytes(None);
        bytes.append(&mut piece);
        let mut piece = self.robe.to_bytes(None);
        bytes.append(&mut piece);
        let mut piece = self.guild_id.to_bytes(None);
        bytes.append(&mut piece);
        let mut piece = self.emblem_version.to_bytes(None);
        bytes.append(&mut piece);
        let mut piece = self.honor.to_bytes(None);
        bytes.append(&mut piece);
        let mut piece = self.virtue.to_bytes(None);
        bytes.append(&mut piece);
        let mut piece = self.is_pk_mode_on.to_bytes(None);
        bytes.append(&mut piece);
        bytes
    }

    #[verifier::rlimit(50)]
    proof fn lemma_round_trip_part_3(value: MovingEntityAppearedPacketModel, data: Seq<u8>, at: int)
        requires
            holds_at(data, at, Self::encoding_part_3(value)),
        ensures
            Self::decoding_part_3(data, at) == Ok::<
                ((u16, u16, u16, u32, u16, u16, u32, u8), nat),
                ConversionError,
            >(
                (
                    (
                        value.body_palette,
                        value.head_direction,
                        value.robe,
                        value.guild_id,
                        value.emblem_version,
                        value.honor,
                        value.virtue,
                        value.is_pk_mode_on,
                    ),
                    Self::encoding_part_3(value).len(),
                ),
            ),
    {
        reveal(MovingEntityAppearedPacket::decoding_part_3);
        reveal(MovingEntityAppearedPacket::encoding_part_3);
        let piece_0 = u16::encoding(value.body_palette, None);
        let piece_1 = u16::encoding(value.head_direction, None);
        let piece_2 = u16::encoding(value.robe, None);
        let piece_3 = u32::encoding(value.guild_id, None);
        let piece_4 = u16::encoding(value.emblem_version, None);
        let piece_5 = u16::encoding(value.honor, None);
        let piece_6 = u32::encoding(value.virtue, None);
        let piece_7 = u8::encoding(value.is_pk_mode_on, None);
        let front_1 = piece_0;
        let front_2 = front_1 + piece_1;
        let front_3 = front_2 + piece_2;
        let front_4 = front_3 + piece_3;
        let front_5 = front_4 + piece_4;
        let front_6 = front_5 + piece_5;
        let front_7 = front_6 + piece_6;
        lemma_holds_at_split(data, at, front_7, piece_7);
        lemma_holds_at_split(data, at, front_6, piece_6);
        lemma_holds_at_split(data, at, front_5, piece_5);
        lemma_holds_at_split(data, at, front_4, piece_4);
        lemma_holds_at_split(data, at, front_3, piece_3);
        lemma_holds_at_split(data, at, front_2, piece_2);
        lemma_holds_at_split(data, at, front_1, piece_1);
        u16::lemma_round_trip(value.body_palette, None, data, at);
        u16::lemma_round_trip(value.head_direction, None, data, at + front_1.len());
        u16::lemma_round_trip(value.robe, None, data, at + front_2.len());
        u32::lemma_round_trip(value.guild_id, None, data, at + front_3.len());
        u16::lemma_round_trip(value.emblem_version, None, data, at + front_4.len());
        u16::lemma_round_trip(value.honor, None, data, at + front_5.len());
        u32::lemma_round_trip(value.virtue, None, data, at + front_6.len());
        u8::lemma_round_trip(value.is_pk_mode_on, None, data, at + front_7.len());
    }

    proof fn lemma_size_part_3(data: Seq<u8>, at: int, value: MovingEntityAppearedPacketModel)
        ensures
            Self::decoding_part_3(data, at) matches Ok((_, length)) ==> length == 19,
            Self::encoding_part_3(value).len() == 19,
    {
        reveal(MovingEntityAppearedPacket::decoding_part_3);
        reveal(MovingEntityAppearedPacket::encoding_part_3);
        u16::lemma_fixed_size(data, at, value.body_palette);
        u16::lemma_fixed_size(data, at + 2, value.head_direction);
        u16::lemma_fixed_size(data, at + 4, value.robe);
        u32::lemma_fixed_size(data, at + 6, value.guild_id);
        u16::lemma_fixed_size(data, at + 10, value.emblem_version);
        u16::lemma_fixed_size(data, at + 12, value.honor);
        u32::lemma_fixed_size(data, at + 14, value.virtue);
        u8::lemma_fixed_size(data, at + 18, value.is_pk_mode_on);
    }

    /// What the fields from `sex` to `health_points` decode to.
    #[verifier::opaque]
    pub open spec fn decoding_part_4(data: Seq<u8>, at: int) -> Result<
        ((Sex, WorldPosition2, u8, u8, u16, u16, i32, i32), nat),
        ConversionError,
    > {
        let sex = Sex::decoding(data, at, None);
        let at_position = behind(at, sex);
        let position = WorldPosition2::decoding(data, at_position, None);
        let at_x_size = behind(at_position, position);
        let x_size = u8::decoding(data, at_x_size, None);
        let at_y_size = behind(at_x_size, x_size);
        let y_size = u8::decoding(data, at_y_size, None);
        let at_c_level = behind(at_y_size, y_size);
        let c_level = u16::decoding(data, at_c_level, None);
        let at_font = behind(at_c_level, c_level);
        let font = u16::decoding(data, at_font, None);
        let at_maximum_health_points = behind(at_font, font);
        let maximum_health_points = i32::decoding(data, at_maximum_health_points, None);
        let at_health_points = behind(at_maximum_health_points, maximum_health_points);
        let health_points = i32::decoding(data, at_health_points, None);
        let behind_all = behind(at_health_points, health_points);
        if sex is Err {
            Err(sex->Err_0)
        } else if position is Err {
            Err(position->Err_0)
        } else if x_size is Err {
            Err(x_size->Err_0)
        } else if y_size is Err {
            Err(y_size->Err_0)
        } else if c_level is Err {
            Err(c_level->Err_0)
        } else if font is Err {
            Err(font->Err_0)
        } else if maximum_health_points is Err {
            Err(maximum_health_points->Err_0)
        } else if health_points is Err {
            Err(health_points->Err_0)
        } else {
            Ok(
                (
                    (
                        sex->Ok_0.0,
                        position->Ok_0.0,
                        x_size->Ok_0.0,
                        y_size->Ok_0.0,
                        c_level->Ok_0.0,
                        font->Ok_0.0,
                        maximum_health_points->Ok_0.0,
                        health_points->Ok_0.0,
                    ),
                    (behind_all - at) as nat,
                ),
            )
        }
    }

    /// Whether the fields from `sex` to `health_points` have a wire form.
    pub open spec fn encodable_part_4(value: MovingEntityAppearedPacketModel) -> bool {
        WorldPosition2::encodable(value.position, None)
    }

    /// The wire form of the fields from `sex` to `health_points`.
    #[verifier::opaque]
    pub open spec fn encoding_part_4(value: MovingEntityAppearedPacketModel) -> Seq<u8> {
        Sex::encoding(value.sex, None)
            + WorldPosition2::encoding(value.position, None)
            + u8::encoding(value.x_size, None)
            + u8::encoding(value.y_size, None)
            + u16::encoding(value.c_level, None)
            + u16::encoding(value.font, None)
            + i32::encoding(value.maximum_health_points, None)
            + i32::encoding(value.health_points, None)
    }

    fn decode_part_4(byte_stream: &mut ByteStream) -> (result: Result<
        (Sex, WorldPosition2, u8, u8, u16, u16, i32, i32),
        ConversionError,
    >)
        ensures
            final(byte_stream).data() == old(byte_stream).data(),
            final(byte_stream).version() == old(byte_stream).version(),
            match Self::decoding_part_4(old(byte_stream).data(), old(byte_stream).offset() as int) {
                Ok((value, length)) => {
                    &&& result is Ok
                    &&& result->Ok_0.0.model() == value.0
                    &&& result->Ok_0.1.model() == value.1
                    &&& result->Ok_0.2.model() == value.2
                    &&& result->Ok_0.3.model() == value.3
                    &&& result->Ok_0.4.model() == value.4
                    &&& result->Ok_0.5.model() == value.5
                    &&& result->Ok_0.6.model() == value.6
                    &&& result->Ok_0.7.model() == value.7
                    &&& final(byte_stream).offset() == old(byte_stream).offset() + length
                },
                Err(error) => {
                    &&& result is Err
                    &&& result->Err_0 == error
                    &&& final(byte_stream).offset() == old(byte_stream).offset()
                },
            },
    {
        proof {
            reveal(MovingEntityAppearedPacket::decoding_part_4);
        }
        let mut cursor = byte_stream.fork();
        let sex = Sex::from_bytes(&mut cursor, None)?;
        let position = WorldPosition2::from_bytes(&mut cursor, None)?;
        let x_size = u8::from_bytes(&mut cursor, None)?;
        let y_size = u8::from_bytes(&mut cursor, None)?;
        let c_level = u16::from_bytes(&mut cursor, None)?;
        let font = u16::from_bytes(&mut cursor, None)?;
        let maximum_health_points = i32::from_bytes(&mut cursor, None)?;
        let health_points = i32::from_bytes(&mut cursor, None)?;
        byte_stream.follow(&cursor);
        Ok((sex, position, x_size, y_size, c_level, font, maximum_health_points, health_points))
    }

    fn encode_part_4(&self) -> (bytes: Vec<u8>)
        requires
            Self::encodable_part_4(self.model()),
        ensures
            bytes@ == Self::encoding_part_4(self.model()),
    {
        proof {
            reveal(MovingEntityAppearedPacket::encoding_part_4);
        }
        let mut bytes = self.sex.to_bytes(None);
        let mut piece = self.position.to_bytes(None);
        bytes.append(&mut piece);
        let mut piece = self.x_size.to_bytes(None);
        bytes.append(&mut piece);
        let mut piece = self.y_size.to_bytes(None);
        bytes.append(&mut piece);
        let mut piece = self.c_level.to_bytes(None);
        bytes.append(&mut piece);
        let mut piece = self.font.to_bytes(None);
        bytes.append(&mut piece);
        let mut piece = self.maximum_health_points.to_bytes(None);
        bytes.append(&mut piece);
        let mut piece = self.health_points.to_bytes(None);
        bytes.append(&mut piece);
        bytes
    }

    #[verifier::rlimit(50)]
    proof fn lemma_round_trip_part_4(value: MovingEntityAppearedPacketModel, data: Seq<u8>, at: int)
        requires
            Self::encodable_part_4(value),
            holds_at(data, at, Self::encoding_part_4(value)),
        ensures
            Self::decoding_part_4(data, at) == Ok::<
                ((Sex, WorldPosition2, u8, u8, u16, u16, i32, i32), nat),
                ConversionError,
            >(
                (
                    (
                        value.sex,
                        value.position,
                        value.x_size,
                        value.y_size,
                        value.c_level,
                        value.font,
                        value.maximum_health_points,
                        value.health_points,
                    ),
                    Self::encoding_part_4(value).len(),
                ),
            ),
    {
        reveal(MovingEntityAppearedPacket::decoding_part_4);
        reveal(MovingEntityAppearedPacket::encoding_part_4);
        let piece_0 = Sex::encoding(value.sex, None);
        let piece_1 = WorldPosition2::encoding(value.position, None);
        let piece_2 = u8::encoding(value.x_size, None);
        let piece_3 = u8::encoding(value.y_size, None);
        let piece_4 = u16::encoding(value.c_level, None);
        let piece_5 = u16::encoding(value.font, None);
        let piece_6 = i32::encoding(value.maximum_health_points, None);
        let piece_7 = i32::encoding(value.health_points, None);
        let front_1 = piece_0;
        let front_2 = front_1 + piece_1;
        let front_3 = front_2 + piece_2;
        let front_4 = front_3 + piece_3;
        let front_5 = front_4 + piece_4;
        let front_6 = front_5 + piece_5;
        let front_7 = front_6 + piece_6;
        lemma_holds_at_split(data, at, front_7, piece_7);
        lemma_holds_at_split(data, at, front_6, piece_6);
        lemma_holds_at_split(data, at, front_5, piece_5);
        lemma_holds_at_split(data, at, front_4, piece_4);
        lemma_holds_at_split(data, at, front_3, piece_3);
        lemma_holds_at_split(data, at, front_2, piece_2);
        lemma_holds_at_split(data, at, front_1, piece_1);
        Sex::lemma_round_trip(value.sex, None, data, at);
        WorldPosition2::lemma_round_trip(value.position, None, data, at + front_1.len());
        u8::lemma_round_trip(value.x_size, None, data, at + front_2.len());
        u8::lemma_round_trip(value.y_size, None, data, at + front_3.len());
        u16::lemma_round_trip(value.c_level, None, data, at + front_4.len());
        u16::lemma_round_trip(value.font, None, data, at + front_5.len());
        i32::lemma_round_trip(value.maximum_health_points, None, data, at + front_6.len());
        i32::lemma_round_trip(value.health_points, None, data, at + front_7.len());
    }

    proof fn lemma_size_part_4(data: Seq<u8>, at: int, value: MovingEntityAppearedPacketModel)
        ensures
            Self::decoding_part_4(data, at) matches Ok((_, length)) ==> length == 21,
            Self::encodable_part_4(value) ==> Self::encoding_part_4(value).len() == 21,
    {
        reveal(MovingEntityAppearedPacket::decoding_part_4);
        reveal(MovingEntityAppearedPacket::encoding_part_4);
        Sex::lemma_fixed_size(data, at, value.sex);
        WorldPosition2::lemma_fixed_size(data, at + 1, value.position);
        u8::lemma_fixed_size(data, at + 7, value.x_size);
        u8::lemma_fixed_size(data, at + 8, value.y_size);
        u16::lemma_fixed_size(data, at + 9, value.c_level);
        u16::lemma_fixed_size(data, at + 11, value.font);
        i32::lemma_fixed_size(data, at + 13, value.maximum_health_points);
        i32::lemma_fixed_size(data, at + 17, value.health_points);
    }

    /// What the fields from `is_boss` to `name` decode to.
    #[verifier::opaque]
    pub open spec fn decoding_part_5(data: Seq<u8>, at: int) -> Result<
        ((u8, u16, Seq<char>), nat),
        ConversionError,
    > {
        let is_boss = u8::decoding(data, at, None);
        let at_body = behind(at, is_boss);
        let body = u16::decoding(data, at_body, None);
        let at_name = behind(at_body, body);
        let name = String::decoding(data, at_name, Some(24));
        let behind_all = behind(at_name, name);
        if is_boss is Err {
            Err(is_boss->Err_0)
        } else if body is Err {
            Err(body->Err_0)
        } else if name is Err {
            Err(name->Err_0)
        } else {
            Ok(
                (
                    (
                        is_boss->Ok_0.0,
                        body->Ok_0.0,
                        name->Ok_0.0,
                    ),
                    (behind_all - at) as nat,
                ),
            )
        }
    }

    /// Whether the fields from `is_boss` to `name` have a wire form.
    pub open spec fn encodable_part_5(value: MovingEntityAppearedPacketModel) -> bool {
        String::encodable(value.name, Some(24))
    }

    /// The wire form of the fields from `is_boss` to `name`.
    #[verifier::opaque]
    pub open spec fn encoding_part_5(value: MovingEntityAppearedPacketModel) -> Seq<u8> {
        u8::encoding(value.is_boss, None)
            + u16::encoding(value.body, None)
            + String::encoding(value.name, Some(24))
    }

    fn decode_part_5(byte_stream: &mut ByteStream) -> (result: Result<
        (u8, u16, String),
        ConversionError,
    >)
        ensures
            final(byte_stream).data() == old(byte_stream).data(),
            final(byte_stream).version() == old(byte_stream).version(),
            match Self::decoding_part_5(old(byte_stream).data(), old(byte_stream).offset() as int) {
                Ok((value, length)) => {
                    &&& result is Ok
                    &&& result->Ok_0.0.model() == value.0
                    &&& result->Ok_0.1.model() == value.1
                    &&& result->Ok_0.2.model() == value.2
                    &&& final(byte_stream).offset() == old(byte_stream).offset() + length
                },
                Err(error) => {
                    &&& result is Err
                    &&& result->Err_0 == error
                    &&& final(byte_stream).offset() == old(byte_stream).offset()
                },
            },
    {
        proof {
            reveal(MovingEntityAppearedPacket::decoding_part_5);
        }
        let mut cursor = byte_stream.fork();
        let is_boss = u8::from_bytes(&mut cursor, None)?;
        let body = u16::from_bytes(&mut cursor, None)?;
        let name = String::from_bytes(&mut cursor, Some(24))?;
        byte_stream.follow(&cursor);
        Ok((is_boss, body, name))
    }

    fn encode_part_5(&self) -> (bytes: Vec<u8>)
        requires
            Self::encodable_part_5(self.model()),
        ensures
            bytes@ == Self::encoding_part_5(self.model()),
    {
        proof {
            reveal(MovingEntityAppearedPacket::encoding_part_5);
        }
        let mut bytes = self.is_boss.to_bytes(None);
        let mut piece = self.body.to_bytes(None);
        bytes.append(&mut piece);
        let mut piece = self.name.to_bytes(Some(24));
        bytes.append(&mut piece);
        bytes
    }

    #[verifier::rlimit(50)]
    proof fn lemma_round_trip_part_5(value: MovingEntityAppearedPacketModel, data: Seq<u8>, at: int)
        requires
            Self::encodable_part_5(value),
            String::faithful(value.name, Some(24)),
            holds_at(data, at, Self::encoding_part_5(value)),
        ensures
            Self::decoding_part_5(data, at) == Ok::<((u8, u16, Seq<char>), nat), ConversionError>(
                (
                    (
                        value.is_boss,
                        value.body,
                        value.name,
                    ),
                    Self::encoding_part_5(value).len(),
                ),
            ),
    {
        reveal(MovingEntityAppearedPacket::decoding_part_5);
        reveal(MovingEntityAppearedPacket::encoding_part_5);
        let piece_0 = u8::encoding(value.is_boss, None);
        let piece_1 = u16::encoding(value.body, None);
        let piece_2 = String::encoding(value.name, Some(24));
        let front_1 = piece_0;
        let front_2 = front_1 + piece_1;
        lemma_holds_at_split(data, at, front_2, piece_2);
        lemma_holds_at_split(data, at, front_1, piece_1);
        u8::lemma_round_trip(value.is_boss, None, data, at);
        u16::lemma_round_trip(value.body, None, data, at + front_1.len());
        String::lemma_round_trip(value.name, Some(24), data, at + front_2.len());
    }

    proof fn lemma_size_part_5(data: Seq<u8>, at: int, value: MovingEntityAppearedPacketModel)
        ensures
            Self::decoding_part_5(data, at) matches Ok((_, length)) ==> length == 27,
            Self::encodable_part_5(value) ==> Self::encoding_part_5(value).len() == 27,
    {
        reveal(MovingEntityAppearedPacket::decoding_part_5);
        reveal(MovingEntityAppearedPacket::encoding_part_5);
        u8::lemma_fixed_size(data, at, value.is_boss);
        u16::lemma_fixed_size(data, at + 1, value.body);
    }
}

impl Packet for MovingEntityAppearedPacket {
    type Model = MovingEntityAppearedPacketModel;

    const PACKET_NAME: &'static str = "MovingEntityAppearedPacket";

    const IS_PING: bool = false;

    open spec fn model(&self) -> MovingEntityAppearedPacketModel {
        MovingEntityAppearedPacketModel {
            packet_length: self.packet_length.model(),
            object_type: self.object_type.model(),
            entity_id: self.entity_id.model(),
            group_id: self.group_id.model(),
            movement_speed: self.movement_speed.model(),
            body_state: self.body_state.model(),
            health_state: self.health_state.model(),
            effect_state: self.effect_state.model(),
            job: self.job.model(),
            head: self.head.model(),
            weapon: self.weapon.model(),
            shield: self.shield.model(),
            accessory: self.accessory.model(),
            move_start_time: self.move_start_time.model(),
            accessory2: self.accessory2.model(),
            accessory3: self.accessory3.model(),
            head_palette: self.head_palette.model(),
            body_palette: self.body_palette.model(),
            head_direction: self.head_direction.model(),
            robe: self.robe.model(),
            guild_id: self.guild_id.model(),
            emblem_version: self.emblem_version.model(),
            honor: self.honor.model(),
            virtue: self.virtue.model(),
            is_pk_mode_on: self.is_pk_mode_on.model(),
            sex: self.sex.model(),
            position: self.position.model(),
            x_size: self.x_size.model(),
            y_size: self.y_size.model(),
            c_level: self.c_level.model(),
            font: self.font.model(),
            maximum_health_points: self.maximum_health_points.model(),
            health_points: self.health_points.model(),
            is_boss: self.is_boss.model(),
            body: self.body.model(),
            name: self.name.model(),
        }
    }

    open spec fn packet_header() -> u16 {
        0x09fd
    }

    #[verifier::opaque]
    open spec fn payload_decoding(data: Seq<u8>, at: int) -> Result<
        (MovingEntityAppearedPacketModel, nat),
        ConversionError,
    > {
        let packet_length = u16::decoding(data, at, None);
        let end = at - 2 + packet_length->Ok_0.0;
        let frame = data.take(end);
        let at_part_1 = behind(at, packet_length);
        let part_1 = Self::decoding_part_1(frame, at_part_1);
        let at_part_2 = behind(at_part_1, part_1);
        let part_2 = Self::decoding_part_2(frame, at_part_2);
        let at_part_3 = behind(at_part_2, part_2);
        let part_3 = Self::decoding_part_3(frame, at_part_3);
        let at_part_4 = behind(at_part_3, part_3);
        let part_4 = Self::decoding_part_4(frame, at_part_4);
        let at_part_5 = behind(at_part_4, part_4);
        let part_5 = Self::decoding_part_5(frame, at_part_5);
        let behind_all = behind(at_part_5, part_5);
        if packet_length is Err {
            Err(packet_length->Err_0)
        } else if packet_length->Ok_0.0 < 4 {
            Err(ConversionError::Invalid)
        } else if end > data.len() {
            Err(ConversionError::Incomplete)
        } else if part_1 is Err
            || part_2 is Err
            || part_3 is Err
            || part_4 is Err
            || part_5 is Err
            || behind_all != end {
            Err(ConversionError::Invalid)
        } else {
            Ok(
                (
                    MovingEntityAppearedPacketModel {
                        packet_length: packet_length->Ok_0.0,
                        object_type: part_1->Ok_0.0.0,
                        entity_id: part_1->Ok_0.0.1,
                        group_id: part_1->Ok_0.0.2,
                        movement_speed: part_1->Ok_0.0.3,
                        body_state: part_1->Ok_0.0.4,
                        health_state: part_1->Ok_0.0.5,
                        effect_state: part_1->Ok_0.0.6,
                        job: part_1->Ok_0.0.7,
                        head: part_2->Ok_0.0.0,
                        weapon: part_2->Ok_0.0.1,
                        shield: part_2->Ok_0.0.2,
                        accessory: part_2->Ok_0.0.3,
                        move_start_time: part_2->Ok_0.0.4,
                        accessory2: part_2->Ok_0.0.5,
                        accessory3: part_2->Ok_0.0.6,
                        head_palette: part_2->Ok_0.0.7,
                        body_palette: part_3->Ok_0.0.0,
                        head_direction: part_3->Ok_0.0.1,
                        robe: part_3->Ok_0.0.2,
                        guild_id: part_3->Ok_0.0.3,
                        emblem_version: part_3->Ok_0.0.4,
                        honor: part_3->Ok_0.0.5,
                        virtue: part_3->Ok_0.0.6,
                        is_pk_mode_on: part_3->Ok_0.0.7,
                        sex: part_4->Ok_0.0.0,
                        position: part_4->Ok_0.0.1,
                        x_size: part_4->Ok_0.0.2,
                        y_size: part_4->Ok_0.0.3,
                        c_level: part_4->Ok_0.0.4,
                        font: part_4->Ok_0.0.5,
                        maximum_health_points: part_4->Ok_0.0.6,
                        health_points: part_4->Ok_0.0.7,
                        is_boss: part_5->Ok_0.0.0,
                        body: part_5->Ok_0.0.1,
                        name: part_5->Ok_0.0.2,
                    },
                    (behind_all - at) as nat,
                ),
            )
        }
    }

    open spec fn encodable(value: MovingEntityAppearedPacketModel) -> bool {
        &&& Self::encodable_part_4(value)
        &&& Self::encodable_part_5(value)
        &&& value.packet_length == 2 + Self::payload_encoding(value).len()
    }

    open spec fn faithful(value: MovingEntityAppearedPacketModel) -> bool {
        String::faithful(value.name, Some(24))
    }

    #[verifier::opaque]
    open spec fn payload_encoding(value: MovingEntityAppearedPacketModel) -> Seq<u8> {
        u16::encoding(value.packet_length, None)
            + Self::encoding_part_1(value)
            + Self::encoding_part_2(value)
            + Self::encoding_part_3(value)
            + Self::encoding_part_4(value)
            + Self::encoding_part_5(value)
    }

    fn header() -> (header: u16) {
        0x09fd
    }

    fn payload_from_bytes(byte_stream: &mut ByteStream) -> (result: Result<
        Self,
        ConversionError,
    >) {
        proof {
            reveal(<MovingEntityAppearedPacket as Packet>::payload_decoding);
        }
        let mut cursor = byte_stream.fork();
        let packet_length = u16::from_bytes(&mut cursor, None)?;
        if packet_length < 4 {
            return Err(ConversionError::Invalid);
        }
        if cursor.remaining_length() < (packet_length - 4) as usize {
            return Err(ConversionError::Incomplete);
        }
        let end = cursor.get_offset() + (packet_length - 4) as usize;
        let mut frame = cursor.frame(end);
        let (
            object_type,
            entity_id,
            group_id,
            movement_speed,
            body_state,
            health_state,
            effect_state,
            job,
        ) = match Self::decode_part_1(&mut frame) {
            Ok(value) => value,
            Err(_) => return Err(ConversionError::Invalid),
        };
        let (
            head,
            weapon,
            shield,
            accessory,
            move_start_time,
            accessory2,
            accessory3,
            head_palette,
        ) = match Self::decode_part_2(&mut frame) {
            Ok(value) => value,
            Err(_) => return Err(ConversionError::Invalid),
        };
        let (
            body_palette,
            head_direction,
            robe,
            guild_id,
            emblem_version,
            honor,
            virtue,
            is_pk_mode_on,
        ) = match Self::decode_part_3(&mut frame) {
            Ok(value) => value,
            Err(_) => return Err(ConversionError::Invalid),
        };
        let (
            sex,
            position,
            x_size,
            y_size,
            c_level,
            font,
            maximum_health_points,
            health_points,
        ) = match Self::decode_part_4(&mut frame) {
            Ok(value) => value,
            Err(_) => return Err(ConversionError::Invalid),
        };
        let (is_boss, body, name) = match Self::decode_part_5(&mut frame) {
            Ok(value) => value,
            Err(_) => return Err(ConversionError::Invalid),
        };
        if !frame.is_empty() {
            return Err(ConversionError::Invalid);
        }
        byte_stream.follow(&frame);
        Ok(MovingEntityAppearedPacket {
            packet_length,
            object_type,
            entity_id,
            group_id,
            movement_speed,
            body_state,
            health_state,
            effect_state,
            job,
            head,
            weapon,
            shield,
            accessory,
            move_start_time,
            accessory2,
            accessory3,
            head_palette,
            body_palette,
            head_direction,
            robe,
            guild_id,
            emblem_version,
            honor,
            virtue,
            is_pk_mode_on,
            sex,
            position,
            x_size,
            y_size,
            c_level,
            font,
            maximum_health_points,
            health_points,
            is_boss,
            body,
            name,
        })
    }

    fn payload_to_bytes(&self) -> (bytes: Vec<u8>) {
        proof {
            reveal(<MovingEntityAppearedPacket as Packet>::payload_encoding);
        }
        let mut bytes = self.packet_length.to_bytes(None);
        let mut piece = self.encode_part_1();
        bytes.append(&mut piece);
        let mut piece = self.encode_part_2();
        bytes.append(&mut piece);
        let mut piece = self.encode_part_3();
        bytes.append(&mut piece);
        let mut piece = self.encode_part_4();
        bytes.append(&mut piece);
        let mut piece = self.encode_part_5();
        bytes.append(&mut piece);
        bytes
    }

    proof fn lemma_payload_round_trip(
        value: MovingEntityAppearedPacketModel,
        data: Seq<u8>,
        at: int,
    ) {
        reveal(<MovingEntityAppearedPacket as Packet>::payload_decoding);
        reveal(<MovingEntityAppearedPacket as Packet>::payload_encoding);
        let piece_0 = u16::encoding(value.packet_length, None);
        let piece_1 = Self::encoding_part_1(value);
        let piece_2 = Self::encoding_part_2(value);
        let piece_3 = Self::encoding_part_3(value);
        let piece_4 = Self::encoding_part_4(value);
        let piece_5 = Self::encoding_part_5(value);
        let front_1 = piece_0;
        let front_2 = front_1 + piece_1;
        let front_3 = front_2 + piece_2;
        let front_4 = front_3 + piece_3;
        let front_5 = front_4 + piece_4;
        lemma_holds_at_split(data, at, front_5, piece_5);
        lemma_holds_at_split(data, at, front_4, piece_4);
        lemma_holds_at_split(data, at, front_3, piece_3);
        lemma_holds_at_split(data, at, front_2, piece_2);
        lemma_holds_at_split(data, at, front_1, piece_1);
        lemma_holds_at_bounds(data, at, Self::payload_encoding(value));
        let end = at - 2 + value.packet_length;
        let frame = data.take(end);
        u16::lemma_round_trip(value.packet_length, None, data, at);
        lemma_holds_at_take(data, end, at + front_1.len(), piece_1);
        Self::lemma_size_part_1(frame, at + front_1.len(), value);
        Self::lemma_round_trip_part_1(value, frame, at + front_1.len());
        lemma_holds_at_take(data, end, at + front_2.len(), piece_2);
        Self::lemma_size_part_2(frame, at + front_2.len(), value);
        Self::lemma_round_trip_part_2(value, frame, at + front_2.len());
        lemma_holds_at_take(data, end, at + front_3.len(), piece_3);
        Self::lemma_size_part_3(frame, at + front_3.len(), value);
        Self::lemma_round_trip_part_3(value, frame, at + front_3.len());
        lemma_holds_at_take(data, end, at + front_4.len(), piece_4);
        Self::lemma_size_part_4(frame, at + front_4.len(), value);
        Self::lemma_round_trip_part_4(value, frame, at + front_4.len());
        lemma_holds_at_take(data, end, at + front_5.len(), piece_5);
        Self::lemma_size_part_5(frame, at + front_5.len(), value);
        Self::lemma_round_trip_part_5(value, frame, at + front_5.len());
    }
}

impl LengthPrefixed for MovingEntityAppearedPacket {
    open spec fn announced_length(value: MovingEntityAppearedPacketModel) -> u16 {
        value.packet_length
    }

    proof fn lemma_exact_length(data: Seq<u8>, at: int) {
        reveal(<MovingEntityAppearedPacket as Packet>::payload_decoding);
    }
}

#[derive(Clone, Debug)]
pub struct EntityAppearedPacket {
    pub packet_length: u16,
    pub object_type: u8,
    pub entity_id: EntityId,
    pub group_id: u32,
    pub movement_speed: u16,
    pub body_state: u16,
    pub health_state: u16,
    pub effect_state: u32,
    pub job: u16,
    pub head: u16,
    pub weapon: u32,
    pub shield: u32,
    pub accessory: u16,
    pub accessory2: u16,
    pub accessory3: u16,
    pub head_palette: u16,
    pub body_palette: u16,
    pub head_direction: u16,
    pub robe: u16,
    pub guild_id: u32,
    pub emblem_version: u16,
    pub honor: u16,
    pub virtue: u32,
    pub is_pk_mode_on: u8,
    pub sex: Sex,
    pub position: WorldPosition,
    pub x_size: u8,
    pub y_size: u8,
    pub c_level: u16,
    pub font: u16,
    pub maximum_health_points: i32,
    pub health_points: i32,
    pub is_boss: u8,
    pub body: u16,
    pub name: String,
}

/// What a [`EntityAppearedPacket`] stands for.
pub struct EntityAppearedPacketModel {
    pub packet_length: u16,
    pub object_type: u8,
    pub entity_id: EntityId,
    pub group_id: u32,
    pub movement_speed: u16,
    pub body_state: u16,
    pub health_state: u16,
    pub effect_state: u32,
    pub job: u16,
    pub head: u16,
    pub weapon: u32,
    pub shield: u32,
    pub accessory: u16,
    pub accessory2: u16,
    pub accessory3: u16,
    pub head_palette: u16,
    pub body_palette: u16,
    pub head_direction: u16,
    pub robe: u16,
    pub guild_id: u32,
    pub emblem_version: u16,
    pub honor: u16,
    pub virtue: u32,
    pub is_pk_mode_on: u8,
    pub sex: Sex,
    pub position: WorldPosition,
    pub x_size: u8,
    pub y_size: u8,
    pub c_level: u16,
    pub font: u16,
    pub maximum_health_points: i32,
    pub health_points: i32,
    pub is_boss: u8,
    pub body: u16,
    pub name: Seq<char>,
}

impl EntityAppearedPacket {
    /// What the fields from `object_type` to `job` decode to.
    #[verifier::opaque]
    pub open spec fn decoding_part_1(data: Seq<u8>, at: int) -> Result<
        ((u8, EntityId, u32, u16, u16, u16, u32, u16), nat),
        ConversionError,
    > {
        let object_type = u8::decoding(data, at, None);
        let at_entity_id = behind(at, object_type);
        let entity_id = EntityId::decoding(data, at_entity_id, None);
        let at_group_id = behind(at_entity_id, entity_id);
        let group_id = u32::decoding(data, at_group_id, None);
        let at_movement_speed = behind(at_group_id, group_id);
        let movement_speed = u16::decoding(data, at_movement_speed, None);
        let at_body_state = behind(at_movement_speed, movement_speed);
        let body_state = u16::decoding(data, at_body_state, None);
        let at_health_state = behind(at_body_state, body_state);
        let health_state = u16::decoding(data, at_health_state, None);
        let at_effect_state = behind(at_health_state, health_state);
        let effect_state = u32::decoding(data, at_effect_state, None);
        let at_job = behind(at_effect_state, effect_state);
        let job = u16::decoding(data, at_job, None);
        let behind_all = behind(at_job, job);
        if object_type is Err {
            Err(object_type->Err_0)
        } else if entity_id is Err {
            Err(entity_id->Err_0)
        } else if group_id is Err {
            Err(group_id->Err_0)
        } else if movement_speed is Err {
            Err(movement_speed->Err_0)
        } else if body_state is Err {
            Err(body_state->Err_0)
        } else if health_state is Err {
            Err(health_state->Err_0)
        } else if effect_state is Err {
            Err(effect_state->Err_0)
        } else if job is Err {
            Err(job->Err_0)
        } else {
            Ok(
                (
                    (
                        object_type->Ok_0.0,
                        entity_id->Ok_0.0,
                        group_id->Ok_0.0,
                        movement_speed->Ok_0.0,
                        body_state->Ok_0.0,
                        health_state->Ok_0.0,
                        effect_state->Ok_0.0,
                        job->Ok_0.0,
                    ),
                    (behind_all - at) as nat,
                ),
            )
        }
    }

    /// The wire form of the fields from `object_type` to `job`.
    #[verifier::opaque]
    pub open spec fn encoding_part_1(value: EntityAppearedPacketModel) -> Seq<u8> {
        u8::encoding(value.object_type, None)
            + EntityId::encoding(value.entity_id, None)
            + u32::encoding(value.group_id, None)
            + u16::encoding(value.movement_speed, None)
            + u16::encoding(value.body_state, None)
            + u16::encoding(value.health_state, None)
            + u32::encoding(value.effect_state, None)
            + u16::encoding(value.job, None)
    }

    fn decode_part_1(byte_stream: &mut ByteStream) -> (result: Result<
        (u8, EntityId, u32, u16, u16, u16, u32, u16),
        ConversionError,
    >)
        ensures
            final(byte_stream).data() == old(byte_stream).data(),
            final(byte_stream).version() == old(byte_stream).version(),
            match Self::decoding_part_1(old(byte_stream).data(), old(byte_stream).offset() as int) {
                Ok((value, length)) => {
                    &&& result is Ok
                    &&& result->Ok_0.0.model() == value.0
                    &&& result->Ok_0.1.model() == value.1
                    &&& result->Ok_0.2.model() == value.2
                    &&& result->Ok_0.3.model() == value.3
                    &&& result->Ok_0.4.model() == value.4
                    &&& result->Ok_0.5.model() == value.5
                    &&& result->Ok_0.6.model() == value.6
                    &&& result->Ok_0.7.model() == value.7
                    &&& final(byte_stream).offset() == old(byte_stream).offset() + length
                },
                Err(error) => {
                    &&& result is Err
                    &&& result->Err_0 == error
                    &&& final(byte_stream).offset() == old(byte_stream).offset()
                },
            },
    {
        proof {
            reveal(EntityAppearedPacket::decoding_part_1);
        }
        let mut cursor = byte_stream.fork();
        let object_type = u8::from_bytes(&mut cursor, None)?;
        let entity_id = EntityId::from_bytes(&mut cursor, None)?;
        let group_id = u32::from_bytes(&mut cursor, None)?;
        let movement_speed = u16::from_bytes(&mut cursor, None)?;
        let body_state = u16::from_bytes(&mut cursor, None)?;
        let health_state = u16::from_bytes(&mut cursor, None)?;
        let effect_state = u32::from_bytes(&mut cursor, None)?;
        let job = u16::from_bytes(&mut cursor, None)?;
        byte_stream.follow(&cursor);
        Ok((
            object_type,
            entity_id,
            group_id,
            movement_speed,
            body_state,
            health_state,
            effect_state,
            job,
        ))
    }

    fn encode_part_1(&self) -> (bytes: Vec<u8>)
        ensures
            bytes@ == Self::encoding_part_1(self.model()),
    {
        proof {
            reveal(EntityAppearedPacket::encoding_part_1);
        }
        let mut bytes = self.object_type.to_bytes(None);
        let mut piece = self.entity_id.to_bytes(None);
        bytes.append(&mut piece);
        let mut piece = self.group_id.to_bytes(None);
        bytes.append(&mut piece);
        let mut piece = self.movement_speed.to_bytes(None);
        bytes.append(&mut piece);
        let mut piece = self.body_state.to_bytes(None);
        bytes.append(&mut piece);
        let mut piece = self.health_state.to_bytes(None);
        bytes.append(&mut piece);
        let mut piece = self.effect_state.to_bytes(None);
        bytes.append(&mut piece);
        let mut piece = self.job.to_bytes(None);
        bytes.append(&mut piece);
        bytes
    }

    #[verifier::rlimit(50)]
    proof fn lemma_round_trip_part_1(value: EntityAppearedPacketModel, data: Seq<u8>, at: int)
        requires
            holds_at(data, at, Self::encoding_part_1(value)),
        ensures
            Self::decoding_part_1(data, at) == Ok::<
                ((u8, EntityId, u32, u16, u16, u16, u32, u16), nat),
                ConversionError,
            >(
                (
                    (
                        value.object_type,
                        value.entity_id,
                        value.group_id,
                        value.movement_speed,
                        value.body_state,
                        value.health_state,
                        value.effect_state,
                        value.job,
                    ),
                    Self::encoding_part_1(value).len(),
                ),
            ),
    {
        reveal(EntityAppearedPacket::decoding_part_1);
        reveal(EntityAppearedPacket::encoding_part_1);
        let piece_0 = u8::encoding(value.object_type, None);
        let piece_1 = EntityId::encoding(value.entity_id, None);
        let piece_2 = u32::encoding(value.group_id, None);
        let piece_3 = u16::encoding(value.movement_speed, None);
        let piece_4 = u16::encoding(value.body_state, None);
        let piece_5 = u16::encoding(value.health_state, None);
        let piece_6 = u32::encoding(value.effect_state, None);
        let piece_7 = u16::encoding(value.job, None);
        let front_1 = piece_0;
        let front_2 = front_1 + piece_1;
        let front_3 = front_2 + piece_2;
        let front_4 = front_3 + piece_3;
        let front_5 = front_4 + piece_4;
        let front_6 = front_5 + piece_5;
        let front_7 = front_6 + piece_6;
        lemma_holds_at_split(data, at, front_7, piece_7);
        lemma_holds_at_split(data, at, front_6, piece_6);
        lemma_holds_at_split(data, at, front_5, piece_5);
        lemma_holds_at_split(data, at, front_4, piece_4);
        lemma_holds_at_split(data, at, front_3, piece_3);
        lemma_holds_at_split(data, at, front_2, piece_2);
        lemma_holds_at_split(data, at, front_1, piece_1);
        u8::lemma_round_trip(value.object_type, None, data, at);
        EntityId::lemma_round_trip(value.entity_id, None, data, at + front_1.len());
        u32::lemma_round_trip(value.group_id, None, data, at + front_2.len());
        u16::lemma_round_trip(value.movement_speed, None, data, at + front_3.len());
        u16::lemma_round_trip(value.body_state, None, data, at + front_4.len());
        u16::lemma_round_trip(value.health_state, None, data, at + front_5.len());
        u32::lemma_round_trip(value.effect_state, None, data, at + front_6.len());
        u16::lemma_round_trip(value.job, None, data, at + front_7.len());
    }

    proof fn lemma_size_part_1(data: Seq<u8>, at: int, value: EntityAppearedPacketModel)
        ensures
            Self::decoding_part_1(data, at) matches Ok((_, length)) ==> length == 21,
            Self::encoding_part_1(value).len() == 21,
    {
        reveal(EntityAppearedPacket::decoding_part_1);
        reveal(EntityAppearedPacket::encoding_part_1);
        u8::lemma_fixed_size(data, at, value.object_type);
        EntityId::lemma_fixed_size(data, at + 1, value.entity_id);
        u32::lemma_fixed_size(data, at + 5, value.group_id);
        u16::lemma_fixed_size(data, at + 9, value.movement_speed);
        u16::lemma_fixed_size(data, at + 11, value.body_state);
        u16::lemma_fixed_size(data, at + 13, value.health_state);
        u32::lemma_fixed_size(data, at + 15, value.effect_state);
        u16::lemma_fixed_size(data, at + 19, value.job);
    }

    /// What the fields from `head` to `body_palette` decode to.
    #[verifier::opaque]
    pub open spec fn decoding_part_2(data: Seq<u8>, at: int) -> Result<
        ((u16, u32, u32, u16, u16, u16, u16, u16), nat),
        ConversionError,
    > {
        let head = u16::decoding(data, at, None);
        let at_weapon = behind(at, head);
        let weapon = u32::decoding(data, at_weapon, None);
        let at_shield = behind(at_weapon, weapon);
        let shield = u32::decoding(data, at_shield, None);
        let at_accessory = behind(at_shield, shield);
        let accessory = u16::decoding(data, at_accessory, None);
        let at_accessory2 = behind(at_accessory, accessory);
        let accessory2 = u16::decoding(data, at_accessory2, None);
        let at_accessory3 = behind(at_accessory2, accessory2);
        let accessory3 = u16::decoding(data, at_accessory3, None);
        let at_head_palette = behind(at_accessory3, accessory3);
        let head_palette = u16::decoding(data, at_head_palette, None);
        let at_body_palette = behind(at_head_palette, head_palette);
        let body_palette = u16::decoding(data, at_body_palette, None);
        let behind_all = behind(at_body_palette, body_palette);
        if head is Err {
            Err(head->Err_0)
        } else if weapon is Err {
            Err(weapon->Err_0)
        } else if shield is Err {
            Err(shield->Err_0)
        } else if accessory is Err {
            Err(accessory->Err_0)
        } else if accessory2 is Err {
            Err(accessory2->Err_0)
        } else if accessory3 is Err {
            Err(accessory3->Err_0)
        } else if head_palette is Err {
            Err(head_palette->Err_0)
        } else if body_palette is Err {
            Err(body_palette->Err_0)
        } else {
            Ok(
                (
                    (
                        head->Ok_0.0,
                        weapon->Ok_0.0,
                        shield->Ok_0.0,
                        accessory->Ok_0.0,
                        accessory2->Ok_0.0,
                        accessory3->Ok_0.0,
                        head_palette->Ok_0.0,
                        body_palette->Ok_0.0,
                    ),
                    (behind_all - at) as nat,
                ),
            )
        }
    }

    /// The wire form of the fields from `head` to `body_palette`.
    #[verifier::opaque]
    pub open spec fn encoding_part_2(value: EntityAppearedPacketModel) -> Seq<u8> {
        u16::encoding(value.head, None)
            + u32::encoding(value.weapon, None)
            + u32::encoding(value.shield, None)
            + u16::encoding(value.accessory, None)
            + u16::encoding(value.accessory2, None)
            + u16::encoding(value.accessory3, None)
            + u16::encoding(value.head_palette, None)
            + u16::encoding(value.body_palette, None)
    }

    fn decode_part_2(byte_stream: &mut ByteStream) -> (result: Result<
        (u16, u32, u32, u16, u16, u16, u16, u16),
        ConversionError,
    >)
        ensures
            final(byte_stream).data() == old(byte_stream).data(),
            final(byte_stream).version() == old(byte_stream).version(),
            match Self::decoding_part_2(old(byte_stream).data(), old(byte_stream).offset() as int) {
                Ok((value, length)) => {
                    &&& result is Ok
                    &&& result->Ok_0.0.model() == value.0
                    &&& result->Ok_0.1.model() == value.1
                    &&& result->Ok_0.2.model() == value.2
                    &&& result->Ok_0.3.model() == value.3
                    &&& result->Ok_0.4.model() == value.4
                    &&& result->Ok_0.5.model() == value.5
                    &&& result->Ok_0.6.model() == value.6
                    &&& result->Ok_0.7.model() == value.7
                    &&& final(byte_stream).offset() == old(byte_stream).offset() + length
                },
                Err(error) => {
                    &&& result is Err
                    &&& result->Err_0 == error
                    &&& final(byte_stream).offset() == old(byte_stream).offset()
                },
            },
    {
        proof {
            reveal(EntityAppearedPacket::decoding_part_2);
        }
        let mut cursor = byte_stream.fork();
        let head = u16::from_bytes(&mut cursor, None)?;
        let weapon = u32::from_bytes(&mut cursor, None)?;
        let shield = u32::from_bytes(&mut cursor, None)?;
        let accessory = u16::from_bytes(&mut cursor, None)?;
        let accessory2 = u16::from_bytes(&mut cursor, None)?;
        let accessory3 = u16::from_bytes(&mut cursor, None)?;
        let head_palette = u16::from_bytes(&mut cursor, None)?;
        let body_palette = u16::from_bytes(&mut cursor, None)?;
        byte_stream.follow(&cursor);
        Ok((head, weapon, shield, accessory, accessory2, accessory3, head_palette, body_palette))
    }

    fn encode_part_2(&self) -> (bytes: Vec<u8>)
        ensures
            bytes@ == Self::encoding_part_2(self.model()),
    {
        proof {
            reveal(EntityAppearedPacket::encoding_part_2);
        }
        let mut bytes = self.head.to_bytes(None);
        let mut piece = self.weapon.to_bytes(None);
        bytes.append(&mut piece);
        let mut piece = self.shield.to_bytes(None);
        bytes.append(&mut piece);
        let mut piece = self.accessory.to_bytes(None);
        bytes.append(&mut piece);
        let mut piece = self.accessory2.to_bytes(None);
        bytes.append(&mut piece);
        let mut piece = self.accessory3.to_bytes(None);
        bytes.append(&mut piece);
        let mut piece = self.head_palette.to_bytes(None);
        bytes.append(&mut piece);
        let mut piece = self.body_palette.to_bytes(None);
        bytes.append(&mut piece);
        bytes
    }

    #[verifier::rlimit(50)]
    proof fn lemma_round_trip_part_2(value: EntityAppearedPacketModel, data: Seq<u8>, at: int)
        requires
            holds_at(data, at, Self::encoding_part_2(value)),
        ensures
            Self::decoding_part_2(data, at) == Ok::<
                ((u16, u32, u32, u16, u16, u16, u16, u16), nat),
                ConversionError,
            >(
                (
                    (
                        value.head,
                        value.weapon,
                        value.shield,
                        value.accessory,
                        value.accessory2,
                        value.accessory3,
                        value.head_palette,
                        value.body_palette,
                    ),
                    Self::encoding_part_2(value).len(),
                ),
            ),
    {
        reveal(EntityAppearedPacket::decoding_part_2);
        reveal(EntityAppearedPacket::encoding_part_2);
        let piece_0 = u16::encoding(value.head, None);
        let piece_1 = u32::encoding(value.weapon, None);
        let piece_2 = u32::encoding(value.shield, None);
        let piece_3 = u16::encoding(value.accessory, None);
        let piece_4 = u16::encoding(value.accessory2, None);
        let piece_5 = u16::encoding(value.accessory3, None);
        let piece_6 = u16::encoding(value.head_palette, None);
        let piece_7 = u16::encoding(value.body_palette, None);
        let front_1 = piece_0;
        let front_2 = front_1 + piece_1;
        let front_3 = front_2 + piece_2;
        let front_4 = front_3 + piece_3;
        let front_5 = front_4 + piece_4;
        let front_6 = front_5 + piece_5;
        let front_7 = front_6 + piece_6;
        lemma_holds_at_split(data, at, front_7, piece_7);
        lemma_holds_at_split(data, at, front_6, piece_6);
        lemma_holds_at_split(data, at, front_5, piece_5);
        lemma_holds_at_split(data, at, front_4, piece_4);
        lemma_holds_at_split(data, at, front_3, piece_3);
        lemma_holds_at_split(data, at, front_2, piece_2);
        lemma_holds_at_split(data, at, front_1, piece_1);
        u16::lemma_round_trip(value.head, None, data, at);
        u32::lemma_round_trip(value.weapon, None, data, at + front_1.len());
        u32::lemma_round_trip(value.shield, None, data, at + front_2.len());
        u16::lemma_round_trip(value.accessory, None, data, at + front_3.len());
        u16::lemma_round_trip(value.accessory2, None, data, at + front_4.len());
        u16::lemma_round_trip(value.accessory3, None, data, at + front_5.len());
        u16::lemma_round_trip(value.head_palette, None, data, at + front_6.len());
        u16::lemma_round_trip(value.body_palette, None, data, at + front_7.len());
    }

    proof fn lemma_size_part_2(data: Seq<u8>, at: int, value: EntityAppearedPacketModel)
        ensures
            Self::decoding_part_2(data, at) matches Ok((_, length)) ==> length == 20,
            Self::encoding_part_2(value).len() == 20,
    {
        reveal(EntityAppearedPacket::decoding_part_2);
        reveal(EntityAppearedPacket::encoding_part_2);
        u16::lemma_fixed_size(data, at, value.head);
        u32::lemma_fixed_size(data, at + 2, value.weapon);
        u32::lemma_fixed_size(data, at + 6, value.shield);
        u16::lemma_fixed_size(data, at + 10, value.accessory);
        u16::lemma_fixed_size(data, at + 12, value.accessory2);
        u16::lemma_fixed_size(data, at + 14, value.accessory3);
        u16::lemma_fixed_size(data, at + 16, value.head_palette);
        u16::lemma_fixed_size(data, at + 18, value.body_palette);
    }

    /// What the fields from `head_direction` to `sex` decode to.
    #[verifier::opaque]
    pub open spec fn decoding_part_3(data: Seq<u8>, at: int) -> Result<
        ((u16, u16, u32, u16, u16, u32, u8, Sex), nat),
        ConversionError,
    > {
        let head_direction = u16::decoding(data, at, None);
        let at_robe = behind(at, head_direction);
        let robe = u16::decoding(data, at_robe, None);
        let at_guild_id = behind(at_robe, robe);
        let guild_id = u32::decoding(data, at_guild_id, None);
        let at_emblem_version = behind(at_guild_id, guild_id);
        let emblem_version = u16::decoding(data, at_emblem_version, None);
        let at_honor = behind(at_emblem_version, emblem_version);
        let honor = u16::decoding(data, at_honor, None);
        let at_virtue = behind(at_honor, honor);
        let virtue = u32::decoding(data, at_virtue, None);
        let at_is_pk_mode_on = behind(at_virtue, virtue);
        let is_pk_mode_on = u8::decoding(data, at_is_pk_mode_on, None);
        let at_sex = behind(at_is_pk_mode_on, is_pk_mode_on);
        let sex = Sex::decoding(data, at_sex, None);
        let behind_all = behind(at_sex, sex);
        if head_direction is Err {
            Err(head_direction->Err_0)
        } else if robe is Err {
            Err(robe->Err_0)
        } else if guild_id is Err {
            Err(guild_id->Err_0)
        } else if emblem_version is Err {
            Err(emblem_version->Err_0)
        } else if honor is Err {
            Err(honor->Err_0)
        } else if virtue is Err {
            Err(virtue->Err_0)
        } else if is_pk_mode_on is Err {
            Err(is_pk_mode_on->Err_0)
        } else if sex is Err {
            Err(sex->Err_0)
        } else {
            Ok(
                (
                    (
                        head_direction->Ok_0.0,
                        robe->Ok_0.0,
                        guild_id->Ok_0.0,
                        emblem_version->Ok_0.0,
                        honor->Ok_0.0,
                        virtue->Ok_0.0,
                        is_pk_mode_on->Ok_0.0,
                        sex->Ok_0.0,
                    ),
                    (behind_all - at) as nat,
                ),
            )
        }
    }

    /// The wire form of the fields from `head_direction` to `sex`.
    #[verifier::opaque]
    pub open spec fn encoding_part_3(value: EntityAppearedPacketModel) -> Seq<u8> {
        u16::encoding(value.head_direction, None)
            + u16::encoding(value.robe, None)
            + u32::encoding(value.guild_id, None)
            + u16::encoding(value.emblem_version, None)
            + u16::encoding(value.honor, None)
            + u32::encoding(value.virtue, None)
            + u8::encoding(value.is_pk_mode_on, None)
            + Sex::encoding(value.sex, None)
    }

    fn decode_part_3(byte_stream: &mut ByteStream) -> (result: Result<
        (u16, u16, u32, u16, u16, u32, u8, Sex),
        ConversionError,
    >)
        ensures
            final(byte_stream).data() == old(byte_stream).data(),
            final(byte_stream).version() == old(byte_stream).version(),
            match Self::decoding_part_3(old(byte_stream).data(), old(byte_stream).offset() as int) {
                Ok((value, length)) => {
                    &&& result is Ok
                    &&& result->Ok_0.0.model() == value.0
                    &&& result->Ok_0.1.model() == value.1
                    &&& result->Ok_0.2.model() == value.2
                    &&& result->Ok_0.3.model() == value.3
                    &&& result->Ok_0.4.model() == value.4
                    &&& result->Ok_0.5.model() == value.5
                    &&& result->Ok_0.6.model() == value.6
                    &&& result->Ok_0.7.model() == value.7
                    &&& final(byte_stream).offset() == old(byte_stream).offset() + length
                },
                Err(error) => {
                    &&& result is Err
                    &&& result->Err_0 == error
                    &&& final(byte_stream).offset() == old(byte_stream).offset()
                },
            },
    {
        proof {
            reveal(EntityAppearedPacket::decoding_part_3);
        }
        let mut cursor = byte_stream.fork();
        let head_direction = u16::from_bytes(&mut cursor, None)?;
        let robe = u16::from_bytes(&mut cursor, None)?;
        let guild_id = u32::from_bytes(&mut cursor, None)?;
        let emblem_version = u16::from_bytes(&mut cursor, None)?;
        let honor = u16::from_bytes(&mut cursor, None)?;
        let virtue = u32::from_bytes(&mut cursor, None)?;
        let is_pk_mode_on = u8::from_bytes(&mut cursor, None)?;
        let sex = Sex::from_bytes(&mut cursor, None)?;
        byte_stream.follow(&cursor);
        Ok((head_direction, robe, guild_id, emblem_version, honor, virtue, is_pk_mode_on, sex))
    }

    fn encode_part_3(&self) -> (bytes: Vec<u8>)
        ensures
            bytes@ == Self::encoding_part_3(self.model()),
    {
        proof {
            reveal(EntityAppearedPacket::encoding_part_3);
        }
        let mut bytes = self.head_direction.to_bytes(None);
        let mut piece = self.robe.to_bytes(None);
        bytes.append(&mut piece);
        let mut piece = self.guild_id.to_bytes(None);
        bytes.append(&mut piece);
        let mut piece = self.emblem_version.to_bytes(None);
        bytes.append(&mut piece);
        let mut piece = self.honor.to_bytes(None);
        bytes.append(&mut piece);
        let mut piece = self.virtue.to_bytes(None);
        bytes.append(&mut piece);
        let mut piece = self.is_pk_mode_on.to_bytes(None);
        bytes.append(&mut piece);
        let mut piece = self.sex.to_bytes(None);
        bytes.append(&mut piece);
        bytes
    }

    #[verifier::rlimit(50)]
    proof fn lemma_round_trip_part_3(value: EntityAppearedPacketModel, data: Seq<u8>, at: int)
        requires
            holds_at(data, at, Self::encoding_part_3(value)),
        ensures
            Self::decoding_part_3(data, at) == Ok::<
                ((u16, u16, u32, u16, u16, u32, u8, Sex), nat),
                ConversionError,
            >(
                (
                    (
                        value.head_direction,
                        value.robe,
                        value.guild_id,
                        value.emblem_version,
                        value.honor,
                        value.virtue,
                        value.is_pk_mode_on,
                        value.sex,
                    ),
                    Self::encoding_part_3(value).len(),
                ),
            ),
    {
        reveal(EntityAppearedPacket::decoding_part_3);
        reveal(EntityAppearedPacket::encoding_part_3);
        let piece_0 = u16::encoding(value.head_direction, None);
        let piece_1 = u16::encoding(value.robe, None);
        let piece_2 = u32::encoding(value.guild_id, None);
        let piece_3 = u16::encoding(value.emblem_version, None);
        let piece_4 = u16::encoding(value.honor, None);
        let piece_5 = u32::encoding(value.virtue, None);
        let piece_6 = u8::encoding(value.is_pk_mode_on, None);
        let piece_7 = Sex::encoding(value.sex, None);
        let front_1 = piece_0;
        let front_2 = front_1 + piece_1;
        let front_3 = front_2 + piece_2;
        let front_4 = front_3 + piece_3;
        let front_5 = front_4 + piece_4;
        let front_6 = front_5 + piece_5;
        let front_7 = front_6 + piece_6;
        lemma_holds_at_split(data, at, front_7, piece_7);
        lemma_holds_at_split(data, at, front_6, piece_6);
        lemma_holds_at_split(data, at, front_5, piece_5);
        lemma_holds_at_split(data, at, front_4, piece_4);
        lemma_holds_at_split(data, at, front_3, piece_3);
        lemma_holds_at_split(data, at, front_2, piece_2);
        lemma_holds_at_split(data, at, front_1, piece_1);
        u16::lemma_round_trip(value.head_direction, None, data, at);
        u16::lemma_round_trip(value.robe, None, data, at + front_1.len());
        u32::lemma_round_trip(value.guild_id, None, data, at + front_2.len());
        u16::lemma_round_trip(value.emblem_version, None, data, at + front_3.len());
        u16::lemma_round_trip(value.honor, None, data, at + front_4.len());
        u32::lemma_round_trip(value.virtue, None, data, at + front_5.len());
        u8::lemma_round_trip(value.is_pk_mode_on, None, data, at + front_6.len());
        Sex::lemma_round_trip(value.sex, None, data, at + front_7.len());
    }

    proof fn lemma_size_part_3(data: Seq<u8>, at: int, value: EntityAppearedPacketModel)
        ensures
            Self::decoding_part_3(data, at) matches Ok((_, length)) ==> length == 18,
            Self::encoding_part_3(value).len() == 18,
    {
        reveal(EntityAppearedPacket::decoding_part_3);
        reveal(EntityAppearedPacket::encoding_part_3);
        u16::lemma_fixed_size(data, at, value.head_direction);
        u16::lemma_fixed_size(data, at + 2, value.robe);
        u32::lemma_fixed_size(data, at + 4, value.guild_id);
        u16::lemma_fixed_size(data, at + 8, value.emblem_version);
        u16::lemma_fixed_size(data, at + 10, value.honor);
        u32::lemma_fixed_size(data, at + 12, value.virtue);
        u8::lemma_fixed_size(data, at + 16, value.is_pk_mode_on);
        Sex::lemma_fixed_size(data, at + 17, value.sex);
    }

    /// What the fields from `position` to `is_boss` decode to.
    #[verifier::opaque]
    pub open spec fn decoding_part_4(data: Seq<u8>, at: int) -> Result<
        ((WorldPosition, u8, u8, u16, u16, i32, i32, u8), nat),
        ConversionError,
    > {
        let position = WorldPosition::decoding(data, at, None);
        let at_x_size = behind(at, position);
        let x_size = u8::decoding(data, at_x_size, None);
        let at_y_size = behind(at_x_size, x_size);
        let y_size = u8::decoding(data, at_y_size, None);
        let at_c_level = behind(at_y_size, y_size);
        let c_level = u16::decoding(data, at_c_level, None);
        let at_font = behind(at_c_level, c_level);
        let font = u16::decoding(data, at_font, None);
        let at_maximum_health_points = behind(at_font, font);
        let maximum_health_points = i32::decoding(data, at_maximum_health_points, None);
        let at_health_points = behind(at_maximum_health_points, maximum_health_points);
        let health_points = i32::decoding(data, at_health_points, None);
        let at_is_boss = behind(at_health_points, health_points);
        let is_boss = u8::decoding(data, at_is_boss, None);
        let behind_all = behind(at_is_boss, is_boss);
        if position is Err {
            Err(position->Err_0)
        } else if x_size is Err {
            Err(x_size->Err_0)
        } else if y_size is Err {
            Err(y_size->Err_0)
        } else if c_level is Err {
            Err(c_level->Err_0)
        } else if font is Err {
            Err(font->Err_0)
        } else if maximum_health_points is Err {
            Err(maximum_health_points->Err_0)
        } else if health_points is Err {
            Err(health_points->Err_0)
        } else if is_boss is Err {
            Err(is_boss->Err_0)
        } else {
            Ok(
                (
                    (
                        position->Ok_0.0,
                        x_size->Ok_0.0,
                        y_size->Ok_0.0,
                        c_level->Ok_0.0,
                        font->Ok_0.0,
                        maximum_health_points->Ok_0.0,
                        health_points->Ok_0.0,
                        is_boss->Ok_0.0,
                    ),
                    (behind_all - at) as nat,
                ),
            )
        }
    }

    /// Whether the fields from `position` to `is_boss` have a wire form.
    pub open spec fn encodable_part_4(value: EntityAppearedPacketModel) -> bool {
        WorldPosition::encodable(value.position, None)
    }

    /// The wire form of the fields from `position` to `is_boss`.
    #[verifier::opaque]
    pub open spec fn encoding_part_4(value: EntityAppearedPacketModel) -> Seq<u8> {
        WorldPosition::encoding(value.position, None)
            + u8::encoding(value.x_size, None)
            + u8::encoding(value.y_size, None)
            + u16::encoding(value.c_level, None)
            + u16::encoding(value.font, None)
            + i32::encoding(value.maximum_health_points, None)
            + i32::encoding(value.health_points, None)
            + u8::encoding(value.is_boss, None)
    }

    fn decode_part_4(byte_stream: &mut ByteStream) -> (result: Result<
        (WorldPosition, u8, u8, u16, u16, i32, i32, u8),
        ConversionError,
    >)
        ensures
            final(byte_stream).data() == old(byte_stream).data(),
            final(byte_stream).version() == old(byte_stream).version(),
            match Self::decoding_part_4(old(byte_stream).data(), old(byte_stream).offset() as int) {
                Ok((value, length)) => {
                    &&& result is Ok
                    &&& result->Ok_0.0.model() == value.0
                    &&& result->Ok_0.1.model() == value.1
                    &&& result->Ok_0.2.model() == value.2
                    &&& result->Ok_0.3.model() == value.3
                    &&& result->Ok_0.4.model() == value.4
                    &&& result->Ok_0.5.model() == value.5
                    &&& result->Ok_0.6.model() == value.6
                    &&& result->Ok_0.7.model() == value.7
                    &&& final(byte_stream).offset() == old(byte_stream).offset() + length
                },
                Err(error) => {
                    &&& result is Err
                    &&& result->Err_0 == error
                    &&& final(byte_stream).offset() == old(byte_stream).offset()
                },
            },
    {
        proof {
            reveal(EntityAppearedPacket::decoding_part_4);
        }
        let mut cursor = byte_stream.fork();
        let position = WorldPosition::from_bytes(&mut cursor, None)?;
        let x_size = u8::from_bytes(&mut cursor, None)?;
        let y_size = u8::from_bytes(&mut cursor, None)?;
        let c_level = u16::from_bytes(&mut cursor, None)?;
        let font = u16::from_bytes(&mut cursor, None)?;
        let maximum_health_points = i32::from_bytes(&mut cursor, None)?;
        let health_points = i32::from_bytes(&mut cursor, None)?;
        let is_boss = u8::from_bytes(&mut cursor, None)?;
        byte_stream.follow(&cursor);
        Ok((position, x_size, y_size, c_level, font, maximum_health_points, health_points, is_boss))
    }

    fn encode_part_4(&self) -> (bytes: Vec<u8>)
        requires
            Self::encodable_part_4(self.model()),
        ensures
            bytes@ == Self::encoding_part_4(self.model()),
    {
        proof {
            reveal(EntityAppearedPacket::encoding_part_4);
        }
        let mut bytes = self.position.to_bytes(None);
        let mut piece = self.x_size.to_bytes(None);
        bytes.append(&mut piece);
        let mut piece = self.y_size.to_bytes(None);
        bytes.append(&mut piece);
        let mut piece = self.c_level.to_bytes(None);
        bytes.append(&mut piece);
        let mut piece = self.font.to_bytes(None);
        bytes.append(&mut piece);
        let mut piece = self.maximum_health_points.to_bytes(None);
        bytes.append(&mut piece);
        let mut piece = self.health_points.to_bytes(None);
        bytes.append(&mut piece);
        let mut piece = self.is_boss.to_bytes(None);
        bytes.append(&mut piece);
        bytes
    }

    #[verifier::rlimit(50)]
    proof fn lemma_round_trip_part_4(value: EntityAppearedPacketModel, data: Seq<u8>, at: int)
        requires
            Self::encodable_part_4(value),
            holds_at(data, at, Self::encoding_part_4(value)),
        ensures
            Self::decoding_part_4(data, at) == Ok::<
                ((WorldPosition, u8, u8, u16, u16, i32, i32, u8), nat),
                ConversionError,
            >(
                (
                    (
                        value.position,
                        value.x_size,
                        value.y_size,
                        value.c_level,
                        value.font,
                        value.maximum_health_points,
                        value.health_points,
                        value.is_boss,
                    ),
                    Self::encoding_part_4(value).len(),
                ),
            ),
    {
        reveal(EntityAppearedPacket::decoding_part_4);
        reveal(EntityAppearedPacket::encoding_part_4);
        let piece_0 = WorldPosition::encoding(value.position, None);
        let piece_1 = u8::encoding(value.x_size, None);
        let piece_2 = u8::encoding(value.y_size, None);
        let piece_3 = u16::encoding(value.c_level, None);
        let piece_4 = u16::encoding(value.font, None);
        let piece_5 = i32::encoding(value.maximum_health_points, None);
        let piece_6 = i32::encoding(value.health_points, None);
        let piece_7 = u8::encoding(value.is_boss, None);
        let front_1 = piece_0;
        let front_2 = front_1 + piece_1;
        let front_3 = front_2 + piece_2;
        let front_4 = front_3 + piece_3;
        let front_5 = front_4 + piece_4;
        let front_6 = front_5 + piece_5;
        let front_7 = front_6 + piece_6;
        lemma_holds_at_split(data, at, front_7, piece_7);
        lemma_holds_at_split(data, at, front_6, piece_6);
        lemma_holds_at_split(data, at, front_5, piece_5);
        lemma_holds_at_split(data, at, front_4, piece_4);
        lemma_holds_at_split(data, at, front_3, piece_3);
        lemma_holds_at_split(data, at, front_2, piece_2);
        lemma_holds_at_split(data, at, front_1, piece_1);
        WorldPosition::lemma_round_trip(value.position, None, data, at);
        u8::lemma_round_trip(value.x_size, None, data, at + front_1.len());
        u8::lemma_round_trip(value.y_size, None, data, at + front_2.len());
        u16::lemma_round_trip(value.c_level, None, data, at + front_3.len());
        u16::lemma_round_trip(value.font, None, data, at + front_4.len());
        i32::lemma_round_trip(value.maximum_health_points, None, data, at + front_5.len());
        i32::lemma_round_trip(value.health_points, None, data, at + front_6.len());
        u8::lemma_round_trip(value.is_boss, None, data, at + front_7.len());
    }

    proof fn lemma_size_part_4(data: Seq<u8>, at: int, value: EntityAppearedPacketModel)
        ensures
            Self::decoding_part_4(data, at) matches Ok((_, length)) ==> length == 18,
            Self::encodable_part_4(value) ==> Self::encoding_part_4(value).len() == 18,
    {
        reveal(EntityAppearedPacket::decoding_part_4);
        reveal(EntityAppearedPacket::encoding_part_4);
        WorldPosition::lemma_fixed_size(data, at, value.position);
        u8::lemma_fixed_size(data, at + 3, value.x_size);
        u8::lemma_fixed_size(data, at + 4, value.y_size);
        u16::lemma_fixed_size(data, at + 5, value.c_level);
        u16::lemma_fixed_size(data, at + 7, value.font);
        i32::lemma_fixed_size(data, at + 9, value.maximum_health_points);
        i32::lemma_fixed_size(data, at + 13, value.health_points);
        u8::lemma_fixed_size(data, at + 17, value.is_boss);
    }

    /// What the fields from `body` to `name` decode to.
    #[verifier::opaque]
    pub open spec fn decoding_part_5(data: Seq<u8>, at: int) -> Result<
        ((u16, Seq<char>), nat),
        ConversionError,
    > {
        let body = u16::decoding(data, at, None);
        let at_name = behind(at, body);
        let name = String::decoding(data, at_name, Some(24));
        let behind_all = behind(at_name, name);
        if body is Err {
            Err(body->Err_0)
        } else if name is Err {
            Err(name->Err_0)
        } else {
            Ok(
                (
                    (
                        body->Ok_0.0,
                        name->Ok_0.0,
                    ),
                    (behind_all - at) as nat,
                ),
            )
        }
    }

    /// Whether the fields from `body` to `name` have a wire form.
    pub open spec fn encodable_part_5(value: EntityAppearedPacketModel) -> bool {
        String::encodable(value.name, Some(24))
    }

    /// The wire form of the fields from `body` to `name`.
    #[verifier::opaque]
    pub open spec fn encoding_part_5(value: EntityAppearedPacketModel) -> Seq<u8> {
        u16::encoding(value.body, None) + String::encoding(value.name, Some(24))
    }

    fn decode_part_5(byte_stream: &mut ByteStream) -> (result: Result<
        (u16, String),
        ConversionError,
    >)
        ensures
            final(byte_stream).data() == old(byte_stream).data(),
            final(byte_stream).version() == old(byte_stream).version(),
            match Self::decoding_part_5(old(byte_stream).data(), old(byte_stream).offset() as int) {
                Ok((value, length)) => {
                    &&& result is Ok
                    &&& result->Ok_0.0.model() == value.0
                    &&& result->Ok_0.1.model() == value.1
                    &&& final(byte_stream).offset() == old(byte_stream).offset() + length
                },
                Err(error) => {
                    &&& result is Err
                    &&& result->Err_0 == error
                    &&& final(byte_stream).offset() == old(byte_stream).offset()
                },
            },
    {
        proof {
            reveal(EntityAppearedPacket::decoding_part_5);
        }
        let mut cursor = byte_stream.fork();
        let body = u16::from_bytes(&mut cursor, None)?;
        let name = String::from_bytes(&mut cursor, Some(24))?;
        byte_stream.follow(&cursor);
        Ok((body, name))
    }

    fn encode_part_5(&self) -> (bytes: Vec<u8>)
        requires
            Self::encodable_part_5(self.model()),
        ensures
            bytes@ == Self::encoding_part_5(self.model()),
    {
        proof {
            reveal(EntityAppearedPacket::encoding_part_5);
        }
        let mut bytes = self.body.to_bytes(None);
        let mut piece = self.name.to_bytes(Some(24));
        bytes.append(&mut piece);
        bytes
    }

    #[verifier::rlimit(50)]
    proof fn lemma_round_trip_part_5(value: EntityAppearedPacketModel, data: Seq<u8>, at: int)
        requires
            Self::encodable_part_5(value),
            String::faithful(value.name, Some(24)),
            holds_at(data, at, Self::encoding_part_5(value)),
        ensures
            Self::decoding_part_5(data, at) == Ok::<((u16, Seq<char>), nat), ConversionError>(
                (
                    (
                        value.body,
                        value.name,
                    ),
                    Self::encoding_part_5(value).len(),
                ),
            ),
    {
        reveal(EntityAppearedPacket::decoding_part_5);
        reveal(EntityAppearedPacket::encoding_part_5);
        let piece_0 = u16::encoding(value.body, None);
        let piece_1 = String::encoding(value.name, Some(24));
        let front_1 = piece_0;
        lemma_holds_at_split(data, at, front_1, piece_1);
        u16::lemma_round_trip(value.body, None, data, at);
        String::lemma_round_trip(value.name, Some(24), data, at + front_1.len());
    }

    proof fn lemma_size_part_5(data: Seq<u8>, at: int, value: EntityAppearedPacketModel)
        ensures
            Self::decoding_part_5(data, at) matches Ok((_, length)) ==> length == 26,
            Self::encodable_part_5(value) ==> Self::encoding_part_5(value).len() == 26,
    {
        reveal(EntityAppearedPacket::decoding_part_5);
        reveal(EntityAppearedPacket::encoding_part_5);
        u16::lemma_fixed_size(data, at, value.body);
    }
}

impl Packet for EntityAppearedPacket {
    type Model = EntityAppearedPacketModel;

    const PACKET_NAME: &'static str = "EntityAppearedPacket";

    const IS_PING: bool = false;

    open spec fn model(&self) -> EntityAppearedPacketModel {
        EntityAppearedPacketModel {
            packet_length: self.packet_length.model(),
            object_type: self.object_type.model(),
            entity_id: self.entity_id.model(),
            group_id: self.group_id.model(),
            movement_speed: self.movement_speed.model(),
            body_state: self.body_state.model(),
            health_state: self.health_state.model(),
            effect_state: self.effect_state.model(),
            job: self.job.model(),
            head: self.head.model(),
            weapon: self.weapon.model(),
            shield: self.shield.model(),
            accessory: self.accessory.model(),
            accessory2: self.accessory2.model(),
            accessory3: self.accessory3.model(),
            head_palette: self.head_palette.model(),
            body_palette: self.body_palette.model(),
            head_direction: self.head_direction.model(),
            robe: self.robe.model(),
            guild_id: self.guild_id.model(),
            emblem_version: self.emblem_version.model(),
            honor: self.honor.model(),
            virtue: self.virtue.model(),
            is_pk_mode_on: self.is_pk_mode_on.model(),
            sex: self.sex.model(),
            position: self.position.model(),
            x_size: self.x_size.model(),
            y_size: self.y_size.model(),
            c_level: self.c_level.model(),
            font: self.font.model(),
            maximum_health_points: self.maximum_health_points.model(),
            health_points: self.health_points.model(),
            is_boss: self.is_boss.model(),
            body: self.body.model(),
            name: self.name.model(),
        }
    }

    open spec fn packet_header() -> u16 {
        0x09fe
    }

    #[verifier::opaque]
    open spec fn payload_decoding(data: Seq<u8>, at: int) -> Result<
        (EntityAppearedPacketModel, nat),
        ConversionError,
    > {
        let packet_length = u16::decoding(data, at, None);
        let end = at - 2 + packet_length->Ok_0.0;
        let frame = data.take(end);
        let at_part_1 = behind(at, packet_length);
        let part_1 = Self::decoding_part_1(frame, at_part_1);
        let at_part_2 = behind(at_part_1, part_1);
        let part_2 = Self::decoding_part_2(frame, at_part_2);
        let at_part_3 = behind(at_part_2, part_2);
        let part_3 = Self::decoding_part_3(frame, at_part_3);
        let at_part_4 = behind(at_part_3, part_3);
        let part_4 = Self::decoding_part_4(frame, at_part_4);
        let at_part_5 = behind(at_part_4, part_4);
        let part_5 = Self::decoding_part_5(frame, at_part_5);
        let behind_all = behind(at_part_5, part_5);
        if packet_length is Err {
            Err(packet_length->Err_0)
        } else if packet_length->Ok_0.0 < 4 {
            Err(ConversionError::Invalid)
        } else if end > data.len() {
            Err(ConversionError::Incomplete)
        } else if part_1 is Err
            || part_2 is Err
            || part_3 is Err
            || part_4 is Err
            || part_5 is Err
            || behind_all != end {
            Err(ConversionError::Invalid)
        } else {
            Ok(
                (
                    EntityAppearedPacketModel {
                        packet_length: packet_length->Ok_0.0,
                        object_type: part_1->Ok_0.0.0,
                        entity_id: part_1->Ok_0.0.1,
                        group_id: part_1->Ok_0.0.2,
                        movement_speed: part_1->Ok_0.0.3,
                        body_state: part_1->Ok_0.0.4,
                        health_state: part_1->Ok_0.0.5,
                        effect_state: part_1->Ok_0.0.6,
                        job: part_1->Ok_0.0.7,
                        head: part_2->Ok_0.0.0,
                        weapon: part_2->Ok_0.0.1,
                        shield: part_2->Ok_0.0.2,
                        accessory: part_2->Ok_0.0.3,
                        accessory2: part_2->Ok_0.0.4,
                        accessory3: part_2->Ok_0.0.5,
                        head_palette: part_2->Ok_0.0.6,
                        body_palette: part_2->Ok_0.0.7,
                        head_direction: part_3->Ok_0.0.0,
                        robe: part_3->Ok_0.0.1,
                        guild_id: part_3->Ok_0.0.2,
                        emblem_version: part_3->Ok_0.0.3,
                        honor: part_3->Ok_0.0.4,
                        virtue: part_3->Ok_0.0.5,
                        is_pk_mode_on: part_3->Ok_0.0.6,
                        sex: part_3->Ok_0.0.7,
                        position: part_4->Ok_0.0.0,
                        x_size: part_4->Ok_0.0.1,
                        y_size: part_4->Ok_0.0.2,
                        c_level: part_4->Ok_0.0.3,
                        font: part_4->Ok_0.0.4,
                        maximum_health_points: part_4->Ok_0.0.5,
                        health_points: part_4->Ok_0.0.6,
                        is_boss: part_4->Ok_0.0.7,
                        body: part_5->Ok_0.0.0,
                        name: part_5->Ok_0.0.1,
                    },
                    (behind_all - at) as nat,
                ),
            )
        }
    }

    open spec fn encodable(value: EntityAppearedPacketModel) -> bool {
        &&& Self::encodable_part_4(value)
        &&& Self::encodable_part_5(value)
        &&& value.packet_length == 2 + Self::payload_encoding(value).len()
    }

    open spec fn faithful(value: EntityAppearedPacketModel) -> bool {
        String::faithful(value.name, Some(24))
    }

    #[verifier::opaque]
    open spec fn payload_encoding(value: EntityAppearedPacketModel) -> Seq<u8> {
        u16::encoding(value.packet_length, None)
            + Self::encoding_part_1(value)
            + Self::encoding_part_2(value)
            + Self::encoding_part_3(value)
            + Self::encoding_part_4(value)
            + Self::encoding_part_5(value)
    }

    fn header() -> (header: u16) {
        0x09fe
    }

    fn payload_from_bytes(byte_stream: &mut ByteStream) -> (result: Result<
        Self,
        ConversionError,
    >) {
        proof {
            reveal(<EntityAppearedPacket as Packet>::payload_decoding);
        }
        let mut cursor = byte_stream.fork();
        let packet_length = u16::from_bytes(&mut cursor, None)?;
        if packet_length < 4 {
            return Err(ConversionError::Invalid);
        }
        if cursor.remaining_length() < (packet_length - 4) as usize {
            return Err(ConversionError::Incomplete);
        }
        let end = cursor.get_offset() + (packet_length - 4) as usize;
        let mut frame = cursor.frame(end);
        let (
            object_type,
            entity_id,
            group_id,
            movement_speed,
            body_state,
            health_state,
            effect_state,
            job,
        ) = match Self::decode_part_1(&mut frame) {
            Ok(value) => value,
            Err(_) => return Err(ConversionError::Invalid),
        };
        let (
            head,
            weapon,
            shield,
            accessory,
            accessory2,
            accessory3,
            head_palette,
            body_palette,
        ) = match Self::decode_part_2(&mut frame) {
            Ok(value) => value,
            Err(_) => return Err(ConversionError::Invalid),
        };
        let (
            head_direction,
            robe,
            guild_id,
            emblem_version,
            honor,
            virtue,
            is_pk_mode_on,
            sex,
        ) = match Self::decode_part_3(&mut frame) {
            Ok(value) => value,
            Err(_) => return Err(ConversionError::Invalid),
        };
        let (
            position,
            x_size,
            y_size,
            c_level,
            font,
            maximum_health_points,
            health_points,
            is_boss,
        ) = match Self::decode_part_4(&mut frame) {
            Ok(value) => value,
            Err(_) => return Err(ConversionError::Invalid),
        };
        let (body, name) = match Self::decode_part_5(&mut frame) {
            Ok(value) => value,
            Err(_) => return Err(ConversionError::Invalid),
        };
        if !frame.is_empty() {
            return Err(ConversionError::Invalid);
        }
        byte_stream.follow(&frame);
        Ok(EntityAppearedPacket {
            packet_length,
            object_type,
            entity_id,
            group_id,
            movement_speed,
            body_state,
            health_state,
            effect_state,
            job,
            head,
            weapon,
            shield,
            accessory,
            accessory2,
            accessory3,
            head_palette,
            body_palette,
            head_direction,
            robe,
            guild_id,
            emblem_version,
            honor,
            virtue,
            is_pk_mode_on,
            sex,
            position,
            x_size,
            y_size,
            c_level,
            font,
            maximum_health_points,
            health_points,
            is_boss,
            body,
            name,
        })
    }

    fn payload_to_bytes(&self) -> (bytes: Vec<u8>) {
        proof {
            reveal(<EntityAppearedPacket as Packet>::payload_encoding);
        }
        let mut bytes = self.packet_length.to_bytes(None);
        let mut piece = self.encode_part_1();
        bytes.append(&mut piece);
        let mut piece = self.encode_part_2();
        bytes.append(&mut piece);
        let mut piece = self.encode_part_3();
        bytes.append(&mut piece);
        let mut piece = self.encode_part_4();
        bytes.append(&mut piece);
        let mut piece = self.encode_part_5();
        bytes.append(&mut piece);
        bytes
    }

    proof fn lemma_payload_round_trip(value: EntityAppearedPacketModel, data: Seq<u8>, at: int) {
        reveal(<EntityAppearedPacket as Packet>::payload_decoding);
        reveal(<EntityAppearedPacket as Packet>::payload_encoding);
        let piece_0 = u16::encoding(value.packet_length, None);
        let piece_1 = Self::encoding_part_1(value);
        let piece_2 = Self::encoding_part_2(value);
        let piece_3 = Self::encoding_part_3(value);
        let piece_4 = Self::encoding_part_4(value);
        let piece_5 = Self::encoding_part_5(value);
        let front_1 = piece_0;
        let front_2 = front_1 + piece_1;
        let front_3 = front_2 + piece_2;
        let front_4 = front_3 + piece_3;
        let front_5 = front_4 + piece_4;
        lemma_holds_at_split(data, at, front_5, piece_5);
        lemma_holds_at_split(data, at, front_4, piece_4);
        lemma_holds_at_split(data, at, front_3, piece_3);
        lemma_holds_at_split(data, at, front_2, piece_2);
        lemma_holds_at_split(data, at, front_1, piece_1);
        lemma_holds_at_bounds(data, at, Self::payload_encoding(value));
        let end = at - 2 + value.packet_length;
        let frame = data.take(end);
        u16::lemma_round_trip(value.packet_length, None, data, at);
        lemma_holds_at_take(data, end, at + front_1.len(), piece_1);
        Self::lemma_size_part_1(frame, at + front_1.len(), value);
        Self::lemma_round_trip_part_1(value, frame, at + front_1.len());
        lemma_holds_at_take(data, end, at + front_2.len(), piece_2);
        Self::lemma_size_part_2(frame, at + front_2.len(), value);
        Self::lemma_round_trip_part_2(value, frame, at + front_2.len());
        lemma_holds_at_take(data, end, at + front_3.len(), piece_3);
        Self::lemma_size_part_3(frame, at + front_3.len(), value);
        Self::lemma_round_trip_part_3(value, frame, at + front_3.len());
        lemma_holds_at_take(data, end, at + front_4.len(), piece_4);
        Self::lemma_size_part_4(frame, at + front_4.len(), value);
        Self::lemma_round_trip_part_4(value, frame, at + front_4.len());
        lemma_holds_at_take(data, end, at + front_5.len(), piece_5);
        Self::lemma_size_part_5(frame, at + front_5.len(), value);
        Self::lemma_round_trip_part_5(value, frame, at + front_5.len());
    }
}

impl LengthPrefixed for EntityAppearedPacket {
    open spec fn announced_length(value: EntityAppearedPacketModel) -> u16 {
        value.packet_length
    }

    proof fn lemma_exact_length(data: Seq<u8>, at: int) {
        reveal(<EntityAppearedPacket as Packet>::payload_decoding);
    }
}

#[derive(Clone, Debug)]
pub struct EntityAppeared2Packet {
    pub packet_length: u16,
    pub object_type: u8,
    pub entity_id: EntityId,
    pub group_id: u32,
    pub movement_speed: u16,
    pub body_state: u16,
    pub health_state: u16,
    pub effect_state: u32,
    pub job: u16,
    pub head: u16,
    pub weapon: u32,
    pub shield: u32,
    pub accessory: u16,
    pub accessory2: u16,
    pub accessory3: u16,
    pub head_palette: u16,
    pub body_palette: u16,
    pub head_direction: u16,
    pub robe: u16,
    pub guild_id: u32,
    pub emblem_version: u16,
    pub honor: u16,
    pub virtue: u32,
    pub is_pk_mode_on: u8,
    pub sex: Sex,
    pub position: WorldPosition,
    pub x_size: u8,
    pub y_size: u8,
    pub state: u8,
    pub c_level: u16,
    pub font: u16,
    pub maximum_health_points: i32,
    pub health_points: i32,
    pub is_boss: u8,
    pub body: u16,
    pub name: String,
}

/// What a [`EntityAppeared2Packet`] stands for.
pub struct EntityAppeared2PacketModel {
    pub packet_length: u16,
    pub object_type: u8,
    pub entity_id: EntityId,
    pub group_id: u32,
    pub movement_speed: u16,
    pub body_state: u16,
    pub health_state: u16,
    pub effect_state: u32,
    pub job: u16,
    pub head: u16,
    pub weapon: u32,
    pub shield: u32,
    pub accessory: u16,
    pub accessory2: u16,
    pub accessory3: u16,
    pub head_palette: u16,
    pub body_palette: u16,
    pub head_direction: u16,
    pub robe: u16,
    pub guild_id: u32,
    pub emblem_version: u16,
    pub honor: u16,
    pub virtue: u32,
    pub is_pk_mode_on: u8,
    pub sex: Sex,
    pub position: WorldPosition,
    pub x_size: u8,
    pub y_size: u8,
    pub state: u8,
    pub c_level: u16,
    pub font: u16,
    pub maximum_health_points: i32,
    pub health_points: i32,
    pub is_boss: u8,
    pub body: u16,
    pub name: Seq<char>,
}

impl EntityAppeared2Packet {
    /// What the fields from `object_type` to `job` decode to.
    #[verifier::opaque]
    pub open spec fn decoding_part_1(data: Seq<u8>, at: int) -> Result<
        ((u8, EntityId, u32, u16, u16, u16, u32, u16), nat),
        ConversionError,
    > {
        let object_type = u8::decoding(data, at, None);
        let at_entity_id = behind(at, object_type);
        let entity_id = EntityId::decoding(data, at_entity_id, None);
        let at_group_id = behind(at_entity_id, entity_id);
        let group_id = u32::decoding(data, at_group_id, None);
        let at_movement_speed = behind(at_group_id, group_id);
        let movement_speed = u16::decoding(data, at_movement_speed, None);
        let at_body_state = behind(at_movement_speed, movement_speed);
        let body_state = u16::decoding(data, at_body_state, None);
        let at_health_state = behind(at_body_state, body_state);
        let health_state = u16::decoding(data, at_health_state, None);
        let at_effect_state = behind(at_health_state, health_state);
        let effect_state = u32::decoding(data, at_effect_state, None);
        let at_job = behind(at_effect_state, effect_state);
        let job = u16::decoding(data, at_job, None);
        let behind_all = behind(at_job, job);
        if object_type is Err {
            Err(object_type->Err_0)
        } else if entity_id is Err {
            Err(entity_id->Err_0)
        } else if group_id is Err {
            Err(group_id->Err_0)
        } else if movement_speed is Err {
            Err(movement_speed->Err_0)
        } else if body_state is Err {
            Err(body_state->Err_0)
        } else if health_state is Err {
            Err(health_state->Err_0)
        } else if effect_state is Err {
            Err(effect_state->Err_0)
        } else if job is Err {
            Err(job->Err_0)
        } else {
            Ok(
                (
                    (
                        object_type->Ok_0.0,
                        entity_id->Ok_0.0,
                        group_id->Ok_0.0,
                        movement_speed->Ok_0.0,
                        body_state->Ok_0.0,
                        health_state->Ok_0.0,
                        effect_state->Ok_0.0,
                        job->Ok_0.0,
                    ),
                    (behind_all - at) as nat,
                ),
            )
        }
    }

    /// The wire form of the fields from `object_type` to `job`.
    #[verifier::opaque]
    pub open spec fn encoding_part_1(value: EntityAppeared2PacketModel) -> Seq<u8> {
        u8::encoding(value.object_type, None)
            + EntityId::encoding(value.entity_id, None)
            + u32::encoding(value.group_id, None)
            + u16::encoding(value.movement_speed, None)
            + u16::encoding(value.body_state, None)
            + u16::encoding(value.health_state, None)
            + u32::encoding(value.effect_state, None)
            + u16::encoding(value.job, None)
    }

    fn decode_part_1(byte_stream: &mut ByteStream) -> (result: Result<
        (u8, EntityId, u32, u16, u16, u16, u32, u16),
        ConversionError,
    >)
        ensures
            final(byte_stream).data() == old(byte_stream).data(),
            final(byte_stream).version() == old(byte_stream).version(),
            match Self::decoding_part_1(old(byte_stream).data(), old(byte_stream).offset() as int) {
                Ok((value, length)) => {
                    &&& result is Ok
                    &&& result->Ok_0.0.model() == value.0
                    &&& result->Ok_0.1.model() == value.1
                    &&& result->Ok_0.2.model() == value.2
                    &&& result->Ok_0.3.model() == value.3
                    &&& result->Ok_0.4.model() == value.4
                    &&& result->Ok_0.5.model() == value.5
                    &&& result->Ok_0.6.model() == value.6
                    &&& result->Ok_0.7.model() == value.7
                    &&& final(byte_stream).offset() == old(byte_stream).offset() + length
                },
                Err(error) => {
                    &&& result is Err
                    &&& result->Err_0 == error
                    &&& final(byte_stream).offset() == old(byte_stream).offset()
                },
            },
    {
        proof {
            reveal(EntityAppeared2Packet::decoding_part_1);
        }
        let mut cursor = byte_stream.fork();
        let object_type = u8::from_bytes(&mut cursor, None)?;
        let entity_id = EntityId::from_bytes(&mut cursor, None)?;
        let group_id = u32::from_bytes(&mut cursor, None)?;
        let movement_speed = u16::from_bytes(&mut cursor, None)?;
        let body_state = u16::from_bytes(&mut cursor, None)?;
        let health_state = u16::from_bytes(&mut cursor, None)?;
        let effect_state = u32::from_bytes(&mut cursor, None)?;
        let job = u16::from_bytes(&mut cursor, None)?;
        byte_stream.follow(&cursor);
        Ok((
            object_type,
            entity_id,
            group_id,
            movement_speed,
            body_state,
            health_state,
            effect_state,
            job,
        ))
    }

    fn encode_part_1(&self) -> (bytes: Vec<u8>)
        ensures
            bytes@ == Self::encoding_part_1(self.model()),
    {
        proof {
            reveal(EntityAppeared2Packet::encoding_part_1);
        }
        let mut bytes = self.object_type.to_bytes(None);
        let mut piece = self.entity_id.to_bytes(None);
        bytes.append(&mut piece);
        let mut piece = self.group_id.to_bytes(None);
        bytes.append(&mut piece);
        let mut piece = self.movement_speed.to_bytes(None);
        bytes.append(&mut piece);
        let mut piece = self.body_state.to_bytes(None);
        bytes.append(&mut piece);
        let mut piece = self.health_state.to_bytes(None);
        bytes.append(&mut piece);
        let mut piece = self.effect_state.to_bytes(None);
        bytes.append(&mut piece);
        let mut piece = self.job.to_bytes(None);
        bytes.append(&mut piece);
        bytes
    }

    #[verifier::rlimit(50)]
    proof fn lemma_round_trip_part_1(value: EntityAppeared2PacketModel, data: Seq<u8>, at: int)
        requires
            holds_at(data, at, Self::encoding_part_1(value)),
        ensures
            Self::decoding_part_1(data, at) == Ok::<
                ((u8, EntityId, u32, u16, u16, u16, u32, u16), nat),
                ConversionError,
            >(
                (
                    (
                        value.object_type,
                        value.entity_id,
                        value.group_id,
                        value.movement_speed,
                        value.body_state,
                        value.health_state,
                        value.effect_state,
                        value.job,
                    ),
                    Self::encoding_part_1(value).len(),
                ),
            ),
    {
        reveal(EntityAppeared2Packet::decoding_part_1);
        reveal(EntityAppeared2Packet::encoding_part_1);
        let piece_0 = u8::encoding(value.object_type, None);
        let piece_1 = EntityId::encoding(value.entity_id, None);
        let piece_2 = u32::encoding(value.group_id, None);
        let piece_3 = u16::encoding(value.movement_speed, None);
        let piece_4 = u16::encoding(value.body_state, None);
        let piece_5 = u16::encoding(value.health_state, None);
        let piece_6 = u32::encoding(value.effect_state, None);
        let piece_7 = u16::encoding(value.job, None);
        let front_1 = piece_0;
        let front_2 = front_1 + piece_1;
        let front_3 = front_2 + piece_2;
        let front_4 = front_3 + piece_3;
        let front_5 = front_4 + piece_4;
        let front_6 = front_5 + piece_5;
        let front_7 = front_6 + piece_6;
        lemma_holds_at_split(data, at, front_7, piece_7);
        lemma_holds_at_split(data, at, front_6, piece_6);
        lemma_holds_at_split(data, at, front_5, piece_5);
        lemma_holds_at_split(data, at, front_4, piece_4);
        lemma_holds_at_split(data, at, front_3, piece_3);
        lemma_holds_at_split(data, at, front_2, piece_2);
        lemma_holds_at_split(data, at, front_1, piece_1);
        u8::lemma_round_trip(value.object_type, None, data, at);
        EntityId::lemma_round_trip(value.entity_id, None, data, at + front_1.len());
        u32::lemma_round_trip(value.group_id, None, data, at + front_2.len());
        u16::lemma_round_trip(value.movement_speed, None, data, at + front_3.len());
        u16::lemma_round_trip(value.body_state, None, data, at + front_4.len());
        u16::lemma_round_trip(value.health_state, None, data, at + front_5.len());
        u32::lemma_round_trip(value.effect_state, None, data, at + front_6.len());
        u16::lemma_round_trip(value.job, None, data, at + front_7.len());
    }

    proof fn lemma_size_part_1(data: Seq<u8>, at: int, value: EntityAppeared2PacketModel)
        ensures
            Self::decoding_part_1(data, at) matches Ok((_, length)) ==> length == 21,
            Self::encoding_part_1(value).len() == 21,
    {
        reveal(EntityAppeared2Packet::decoding_part_1);
        reveal(EntityAppeared2Packet::encoding_part_1);
        u8::lemma_fixed_size(data, at, value.object_type);
        EntityId::lemma_fixed_size(data, at + 1, value.entity_id);
        u32::lemma_fixed_size(data, at + 5, value.group_id);
        u16::lemma_fixed_size(data, at + 9, value.movement_speed);
        u16::lemma_fixed_size(data, at + 11, value.body_state);
        u16::lemma_fixed_size(data, at + 13, value.health_state);
        u32::lemma_fixed_size(data, at + 15, value.effect_state);
        u16::lemma_fixed_size(data, at + 19, value.job);
    }

    /// What the fields from `head` to `body_palette` decode to.
    #[verifier::opaque]
    pub open spec fn decoding_part_2(data: Seq<u8>, at: int) -> Result<
        ((u16, u32, u32, u16, u16, u16, u16, u16), nat),
        ConversionError,
    > {
        let head = u16::decoding(data, at, None);
        let at_weapon = behind(at, head);
        let weapon = u32::decoding(data, at_weapon, None);
        let at_shield = behind(at_weapon, weapon);
        let shield = u32::decoding(data, at_shield, None);
        let at_accessory = behind(at_shield, shield);
        let accessory = u16::decoding(data, at_accessory, None);
        let at_accessory2 = behind(at_accessory, accessory);
        let accessory2 = u16::decoding(data, at_accessory2, None);
        let at_accessory3 = behind(at_accessory2, accessory2);
        let accessory3 = u16::decoding(data, at_accessory3, None);
        let at_head_palette = behind(at_accessory3, accessory3);
        let head_palette = u16::decoding(data, at_head_palette, None);
        let at_body_palette = behind(at_head_palette, head_palette);
        let body_palette = u16::decoding(data, at_body_palette, None);
        let behind_all = behind(at_body_palette, body_palette);
        if head is Err {
            Err(head->Err_0)
        } else if weapon is Err {
            Err(weapon->Err_0)
        } else if shield is Err {
            Err(shield->Err_0)
        } else if accessory is Err {
            Err(accessory->Err_0)
        } else if accessory2 is Err {
            Err(accessory2->Err_0)
        } else if accessory3 is Err {
            Err(accessory3->Err_0)
        } else if head_palette is Err {
            Err(head_palette->Err_0)
        } else if body_palette is Err {
            Err(body_palette->Err_0)
        } else {
            Ok(
                (
                    (
                        head->Ok_0.0,
                        weapon->Ok_0.0,
                        shield->Ok_0.0,
                        accessory->Ok_0.0,
                        accessory2->Ok_0.0,
                        accessory3->Ok_0.0,
                        head_palette->Ok_0.0,
                        body_palette->Ok_0.0,
                    ),
                    (behind_all - at) as nat,
                ),
            )
        }
    }

    /// The wire form of the fields from `head` to `body_palette`.
    #[verifier::opaque]
    pub open spec fn encoding_part_2(value: EntityAppeared2PacketModel) -> Seq<u8> {
        u16::encoding(value.head, None)
            + u32::encoding(value.weapon, None)
            + u32::encoding(value.shield, None)
            + u16::encoding(value.accessory, None)
            + u16::encoding(value.accessory2, None)
            + u16::encoding(value.accessory3, None)
            + u16::encoding(value.head_palette, None)
            + u16::encoding(value.body_palette, None)
    }

    fn decode_part_2(byte_stream: &mut ByteStream) -> (result: Result<
        (u16, u32, u32, u16, u16, u16, u16, u16),
        ConversionError,
    >)
        ensures
            final(byte_stream).data() == old(byte_stream).data(),
            final(byte_stream).version() == old(byte_stream).version(),
            match Self::decoding_part_2(old(byte_stream).data(), old(byte_stream).offset() as int) {
                Ok((value, length)) => {
                    &&& result is Ok
                    &&& result->Ok_0.0.model() == value.0
                    &&& result->Ok_0.1.model() == value.1
                    &&& result->Ok_0.2.model() == value.2
                    &&& result->Ok_0.3.model() == value.3
                    &&& result->Ok_0.4.model() == value.4
                    &&& result->Ok_0.5.model() == value.5
                    &&& result->Ok_0.6.model() == value.6
                    &&& result->Ok_0.7.model() == value.7
                    &&& final(byte_stream).offset() == old(byte_stream).offset() + length
                },
                Err(error) => {
                    &&& result is Err
                    &&& result->Err_0 == error
                    &&& final(byte_stream).offset() == old(byte_stream).offset()
                },
            },
    {
        proof {
            reveal(EntityAppeared2Packet::decoding_part_2);
        }
        let mut cursor = byte_stream.fork();
        let head = u16::from_bytes(&mut cursor, None)?;
        let weapon = u32::from_bytes(&mut cursor, None)?;
        let shield = u32::from_bytes(&mut cursor, None)?;
        let accessory = u16::from_bytes(&mut cursor, None)?;
        let accessory2 = u16::from_bytes(&mut cursor, None)?;
        let accessory3 = u16::from_bytes(&mut cursor, None)?;
        let head_palette = u16::from_bytes(&mut cursor, None)?;
        let body_palette = u16::from_bytes(&mut cursor, None)?;
        byte_stream.follow(&cursor);
        Ok((head, weapon, shield, accessory, accessory2, accessory3, head_palette, body_palette))
    }

    fn encode_part_2(&self) -> (bytes: Vec<u8>)
        ensures
            bytes@ == Self::encoding_part_2(self.model()),
    {
        proof {
            reveal(EntityAppeared2Packet::encoding_part_2);
        }
        let mut bytes = self.head.to_bytes(None);
        let mut piece = self.weapon.to_bytes(None);
        bytes.append(&mut piece);
        let mut piece = self.shield.to_bytes(None);
        bytes.append(&mut piece);
        let mut piece = self.accessory.to_bytes(None);
        bytes.append(&mut piece);
        let mut piece = self.accessory2.to_bytes(None);
        bytes.append(&mut piece);
        let mut piece = self.accessory3.to_bytes(None);
        bytes.append(&mut piece);
        let mut piece = self.head_palette.to_bytes(None);
        bytes.append(&mut piece);
        let mut piece = self.body_palette.to_bytes(None);
        bytes.append(&mut piece);
        bytes
    }

    #[verifier::rlimit(50)]
    proof fn lemma_round_trip_part_2(value: EntityAppeared2PacketModel, data: Seq<u8>, at: int)
        requires
            holds_at(data, at, Self::encoding_part_2(value)),
        ensures
            Self::decoding_part_2(data, at) == Ok::<
                ((u16, u32, u32, u16, u16, u16, u16, u16), nat),
                ConversionError,
            >(
                (
                    (
                        value.head,
                        value.weapon,
                        value.shield,
                        value.accessory,
                        value.accessory2,
                        value.accessory3,
                        value.head_palette,
                        value.body_palette,
                    ),
                    Self::encoding_part_2(value).len(),
                ),
            ),
    {
        reveal(EntityAppeared2Packet::decoding_part_2);
        reveal(EntityAppeared2Packet::encoding_part_2);
        let piece_0 = u16::encoding(value.head, None);
        let piece_1 = u32::encoding(value.weapon, None);
        let piece_2 = u32::encoding(value.shield, None);
        let piece_3 = u16::encoding(value.accessory, None);
        let piece_4 = u16::encoding(value.accessory2, None);
        let piece_5 = u16::encoding(value.accessory3, None);
        let piece_6 = u16::encoding(value.head_palette, None);
        let piece_7 = u16::encoding(value.body_palette, None);
        let front_1 = piece_0;
        let front_2 = front_1 + piece_1;
        let front_3 = front_2 + piece_2;
        let front_4 = front_3 + piece_3;
        let front_5 = front_4 + piece_4;
        let front_6 = front_5 + piece_5;
        let front_7 = front_6 + piece_6;
        lemma_holds_at_split(data, at, front_7, piece_7);
        lemma_holds_at_split(data, at, front_6, piece_6);
        lemma_holds_at_split(data, at, front_5, piece_5);
        lemma_holds_at_split(data, at, front_4, piece_4);
        lemma_holds_at_split(data, at, front_3, piece_3);
        lemma_holds_at_split(data, at, front_2, piece_2);
        lemma_holds_at_split(data, at, front_1, piece_1);
        u16::lemma_round_trip(value.head, None, data, at);
        u32::lemma_round_trip(value.weapon, None, data, at + front_1.len());
        u32::lemma_round_trip(value.shield, None, data, at + front_2.len());
        u16::lemma_round_trip(value.accessory, None, data, at + front_3.len());
        u16::lemma_round_trip(value.accessory2, None, data, at + front_4.len());
        u16::lemma_round_trip(value.accessory3, None, data, at + front_5.len());
        u16::lemma_round_trip(value.head_palette, None, data, at + front_6.len());
        u16::lemma_round_trip(value.body_palette, None, data, at + front_7.len());
    }

    proof fn lemma_size_part_2(data: Seq<u8>, at: int, value: EntityAppeared2PacketModel)
        ensures
            Self::decoding_part_2(data, at) matches Ok((_, length)) ==> length == 20,
            Self::encoding_part_2(value).len() == 20,
    {
        reveal(EntityAppeared2Packet::decoding_part_2);
        reveal(EntityAppeared2Packet::encoding_part_2);
        u16::lemma_fixed_size(data, at, value.head);
        u32::lemma_fixed_size(data, at + 2, value.weapon);
        u32::lemma_fixed_size(data, at + 6, value.shield);
        u16::lemma_fixed_size(data, at + 10, value.accessory);
        u16::lemma_fixed_size(data, at + 12, value.accessory2);
        u16::lemma_fixed_size(data, at + 14, value.accessory3);
        u16::lemma_fixed_size(data, at + 16, value.head_palette);
        u16::lemma_fixed_size(data, at + 18, value.body_palette);
    }

    /// What the fields from `head_direction` to `sex` decode to.
    #[verifier::opaque]
    pub open spec fn decoding_part_3(data: Seq<u8>, at: int) -> Result<
        ((u16, u16, u32, u16, u16, u32, u8, Sex), nat),
        ConversionError,
    > {
        let head_direction = u16::decoding(data, at, None);
        let at_robe = behind(at, head_direction);
        let robe = u16::decoding(data, at_robe, None);
        let at_guild_id = behind(at_robe, robe);
        let guild_id = u32::decoding(data, at_guild_id, None);
        let at_emblem_version = behind(at_guild_id, guild_id);
        let emblem_version = u16::decoding(data, at_emblem_version, None);
        let at_honor = behind(at_emblem_version, emblem_version);
        let honor = u16::decoding(data, at_honor, None);
        let at_virtue = behind(at_honor, honor);
        let virtue = u32::decoding(data, at_virtue, None);
        let at_is_pk_mode_on = behind(at_virtue, virtue);
        let is_pk_mode_on = u8::decoding(data, at_is_pk_mode_on, None);
        let at_sex = behind(at_is_pk_mode_on, is_pk_mode_on);
        let sex = Sex::decoding(data, at_sex, None);
        let behind_all = behind(at_sex, sex);
        if head_direction is Err {
            Err(head_direction->Err_0)
        } else if robe is Err {
            Err(robe->Err_0)
        } else if guild_id is Err {
            Err(guild_id->Err_0)
        } else if emblem_version is Err {
            Err(emblem_version->Err_0)
        } else if honor is Err {
            Err(honor->Err_0)
        } else if virtue is Err {
            Err(virtue->Err_0)
        } else if is_pk_mode_on is Err {
            Err(is_pk_mode_on->Err_0)
        } else if sex is Err {
            Err(sex->Err_0)
        } else {
            Ok(
                (
                    (
                        head_direction->Ok_0.0,
                        robe->Ok_0.0,
                        guild_id->Ok_0.0,
                        emblem_version->Ok_0.0,
                        honor->Ok_0.0,
                        virtue->Ok_0.0,
                        is_pk_mode_on->Ok_0.0,
                        sex->Ok_0.0,
                    ),
                    (behind_all - at) as nat,
                ),
            )
        }
    }

    /// The wire form of the fields from `head_direction` to `sex`.
    #[verifier::opaque]
    pub open spec fn encoding_part_3(value: EntityAppeared2PacketModel) -> Seq<u8> {
        u16::encoding(value.head_direction, None)
            + u16::encoding(value.robe, None)
            + u32::encoding(value.guild_id, None)
            + u16::encoding(value.emblem_version, None)
            + u16::encoding(value.honor, None)
            + u32::encoding(value.virtue, None)
            + u8::encoding(value.is_pk_mode_on, None)
            + Sex::encoding(value.sex, None)
    }

    fn decode_part_3(byte_stream: &mut ByteStream) -> (result: Result<
        (u16, u16, u32, u16, u16, u32, u8, Sex),
        ConversionError,
    >)
        ensures
            final(byte_stream).data() == old(byte_stream).data(),
            final(byte_stream).version() == old(byte_stream).version(),
            match Self::decoding_part_3(old(byte_stream).data(), old(byte_stream).offset() as int) {
                Ok((value, length)) => {
                    &&& result is Ok
                    &&& result->Ok_0.0.model() == value.0
                    &&& result->Ok_0.1.model() == value.1
                    &&& result->Ok_0.2.model() == value.2
                    &&& result->Ok_0.3.model() == value.3
                    &&& result->Ok_0.4.model() == value.4
                    &&& result->Ok_0.5.model() == value.5
                    &&& result->Ok_0.6.model() == value.6
                    &&& result->Ok_0.7.model() == value.7
                    &&& final(byte_stream).offset() == old(byte_stream).offset() + length
                },
                Err(error) => {
                    &&& result is Err
                    &&& result->Err_0 == error
                    &&& final(byte_stream).offset() == old(byte_stream).offset()
                },
            },
    {
        proof {
            reveal(EntityAppeared2Packet::decoding_part_3);
        }
        let mut cursor = byte_stream.fork();
        let head_direction = u16::from_bytes(&mut cursor, None)?;
        let robe = u16::from_bytes(&mut cursor, None)?;
        let guild_id = u32::from_bytes(&mut cursor, None)?;
        let emblem_version = u16::from_bytes(&mut cursor, None)?;
        let honor = u16::from_bytes(&mut cursor, None)?;
        let virtue = u32::from_bytes(&mut cursor, None)?;
        let is_pk_mode_on = u8::from_bytes(&mut cursor, None)?;
        let sex = Sex::from_bytes(&mut cursor, None)?;
        byte_stream.follow(&cursor);
        Ok((head_direction, robe, guild_id, emblem_version, honor, virtue, is_pk_mode_on, sex))
    }

    fn encode_part_3(&self) -> (bytes: Vec<u8>)
        ensures
            bytes@ == Self::encoding_part_3(self.model()),
    {
        proof {
            reveal(EntityAppeared2Packet::encoding_part_3);
        }
        let mut bytes = self.head_direction.to_bytes(None);
        let mut piece = self.robe.to_bytes(None);
        bytes.append(&mut piece);
        let mut piece = self.guild_id.to_bytes(None);
        bytes.append(&mut piece);
        let mut piece = self.emblem_version.to_bytes(None);
        bytes.append(&mut piece);
        let mut piece = self.honor.to_bytes(None);
        bytes.append(&mut piece);
        let mut piece = self.virtue.to_bytes(None);
        bytes.append(&mut piece);
        let mut piece = self.is_pk_mode_on.to_bytes(None);
        bytes.append(&mut piece);
        let mut piece = self.sex.to_bytes(None);
        bytes.append(&mut piece);
        bytes
    }

    #[verifier::rlimit(50)]
    proof fn lemma_round_trip_part_3(value: EntityAppeared2PacketModel, data: Seq<u8>, at: int)
        requires
            holds_at(data, at, Self::encoding_part_3(value)),
        ensures
            Self::decoding_part_3(data, at) == Ok::<
                ((u16, u16, u32, u16, u16, u32, u8, Sex), nat),
                ConversionError,
            >(
                (
                    (
                        value.head_direction,
                        value.robe,
                        value.guild_id,
                        value.emblem_version,
                        value.honor,
                        value.virtue,
                        value.is_pk_mode_on,
                        value.sex,
                    ),
                    Self::encoding_part_3(value).len(),
                ),
            ),
    {
        reveal(EntityAppeared2Packet::decoding_part_3);
        reveal(EntityAppeared2Packet::encoding_part_3);
        let piece_0 = u16::encoding(value.head_direction, None);
        let piece_1 = u16::encoding(value.robe, None);
        let piece_2 = u32::encoding(value.guild_id, None);
        let piece_3 = u16::encoding(value.emblem_version, None);
        let piece_4 = u16::encoding(value.honor, None);
        let piece_5 = u32::encoding(value.virtue, None);
        let piece_6 = u8::encoding(value.is_pk_mode_on, None);
        let piece_7 = Sex::encoding(value.sex, None);
        let front_1 = piece_0;
        let front_2 = front_1 + piece_1;
        let front_3 = front_2 + piece_2;
        let front_4 = front_3 + piece_3;
        let front_5 = front_4 + piece_4;
        let front_6 = front_5 + piece_5;
        let front_7 = front_6 + piece_6;
        lemma_holds_at_split(data, at, front_7, piece_7);
        lemma_holds_at_split(data, at, front_6, piece_6);
        lemma_holds_at_split(data, at, front_5, piece_5);
        lemma_holds_at_split(data, at, front_4, piece_4);
        lemma_holds_at_split(data, at, front_3, piece_3);
        lemma_holds_at_split(data, at, front_2, piece_2);
        lemma_holds_at_split(data, at, front_1, piece_1);
        u16::lemma_round_trip(value.head_direction, None, data, at);
        u16::lemma_round_trip(value.robe, None, data, at + front_1.len());
        u32::lemma_round_trip(value.guild_id, None, data, at + front_2.len());
        u16::lemma_round_trip(value.emblem_version, None, data, at + front_3.len());
        u16::lemma_round_trip(value.honor, None, data, at + front_4.len());
        u32::lemma_round_trip(value.virtue, None, data, at + front_5.len());
        u8::lemma_round_trip(value.is_pk_mode_on, None, data, at + front_6.len());
        Sex::lemma_round_trip(value.sex, None, data, at + front_7.len());
    }

    proof fn lemma_size_part_3(data: Seq<u8>, at: int, value: EntityAppeared2PacketModel)
        ensures
            Self::decoding_part_3(data, at) matches Ok((_, length)) ==> length == 18,
            Self::encoding_part_3(value).len() == 18,
    {
        reveal(EntityAppeared2Packet::decoding_part_3);
        reveal(EntityAppeared2Packet::encoding_part_3);
        u16::lemma_fixed_size(data, at, value.head_direction);
        u16::lemma_fixed_size(data, at + 2, value.robe);
        u32::lemma_fixed_size(data, at + 4, value.guild_id);
        u16::lemma_fixed_size(data, at + 8, value.emblem_version);
        u16::lemma_fixed_size(data, at + 10, value.honor);
        u32::lemma_fixed_size(data, at + 12, value.virtue);
        u8::lemma_fixed_size(data, at + 16, value.is_pk_mode_on);
        Sex::lemma_fixed_size(data, at + 17, value.sex);
    }

    /// What the fields from `position` to `health_points` decode to.
    #[verifier::opaque]
    pub open spec fn decoding_part_4(data: Seq<u8>, at: int) -> Result<
        ((WorldPosition, u8, u8, u8, u16, u16, i32, i32), nat),
        ConversionError,
    > {
        let position = WorldPosition::decoding(data, at, None);
        let at_x_size = behind(at, position);
        let x_size = u8::decoding(data, at_x_size, None);
        let at_y_size = behind(at_x_size, x_size);
        let y_size = u8::decoding(data, at_y_size, None);
        let at_state = behind(at_y_size, y_size);
        let state = u8::decoding(data, at_state, None);
        let at_c_level = behind(at_state, state);
        let c_level = u16::decoding(data, at_c_level, None);
        let at_font = behind(at_c_level, c_level);
        let font = u16::decoding(data, at_font, None);
        let at_maximum_health_points = behind(at_font, font);
        let maximum_health_points = i32::decoding(data, at_maximum_health_points, None);
        let at_health_points = behind(at_maximum_health_points, maximum_health_points);
        let health_points = i32::decoding(data, at_health_points, None);
        let behind_all = behind(at_health_points, health_points);
        if position is Err {
            Err(position->Err_0)
        } else if x_size is Err {
            Err(x_size->Err_0)
        } else if y_size is Err {
            Err(y_size->Err_0)
        } else if state is Err {
            Err(state->Err_0)
        } else if c_level is Err {
            Err(c_level->Err_0)
        } else if font is Err {
            Err(font->Err_0)
        } else if maximum_health_points is Err {
            Err(maximum_health_points->Err_0)
        } else if health_points is Err {
            Err(health_points->Err_0)
        } else {
            Ok(
                (
                    (
                        position->Ok_0.0,
                        x_size->Ok_0.0,
                        y_size->Ok_0.0,
                        state->Ok_0.0,
                        c_level->Ok_0.0,
                        font->Ok_0.0,
                        maximum_health_points->Ok_0.0,
                        health_points->Ok_0.0,
                    ),
                    (behind_all - at) as nat,
                ),
            )
        }
    }

    /// Whether the fields from `position` to `health_points` have a wire form.
    pub open spec fn encodable_part_4(value: EntityAppeared2PacketModel) -> bool {
        WorldPosition::encodable(value.position, None)
    }

    /// The wire form of the fields from `position` to `health_points`.
    #[verifier::opaque]
    pub open spec fn encoding_part_4(value: EntityAppeared2PacketModel) -> Seq<u8> {
        WorldPosition::encoding(value.position, None)
            + u8::encoding(value.x_size, None)
            + u8::encoding(value.y_size, None)
            + u8::encoding(value.state, None)
            + u16::encoding(value.c_level, None)
            + u16::encoding(value.font, None)
            + i32::encoding(value.maximum_health_points, None)
            + i32::encoding(value.health_points, None)
    }

    fn decode_part_4(byte_stream: &mut ByteStream) -> (result: Result<
        (WorldPosition, u8, u8, u8, u16, u16, i32, i32),
        ConversionError,
    >)
        ensures
            final(byte_stream).data() == old(byte_stream).data(),
            final(byte_stream).version() == old(byte_stream).version(),
            match Self::decoding_part_4(old(byte_stream).data(), old(byte_stream).offset() as int) {
                Ok((value, length)) => {
                    &&& result is Ok
                    &&& result->Ok_0.0.model() == value.0
                    &&& result->Ok_0.1.model() == value.1
                    &&& result->Ok_0.2.model() == value.2
                    &&& result->Ok_0.3.model() == value.3
                    &&& result->Ok_0.4.model() == value.4
                    &&& result->Ok_0.5.model() == value.5
                    &&& result->Ok_0.6.model() == value.6
                    &&& result->Ok_0.7.model() == value.7
                    &&& final(byte_stream).offset() == old(byte_stream).offset() + length
                },
                Err(error) => {
                    &&& result is Err
                    &&& result->Err_0 == error
                    &&& final(byte_stream).offset() == old(byte_stream).offset()
                },
            },
    {
        proof {
            reveal(EntityAppeared2Packet::decoding_part_4);
        }
        let mut cursor = byte_stream.fork();
        let position = WorldPosition::from_bytes(&mut cursor, None)?;
        let x_size = u8::from_bytes(&mut cursor, None)?;
        let y_size = u8::from_bytes(&mut cursor, None)?;
        let state = u8::from_bytes(&mut cursor, None)?;
        let c_level = u16::from_bytes(&mut cursor, None)?;
        let font = u16::from_bytes(&mut cursor, None)?;
        let maximum_health_points = i32::from_bytes(&mut cursor, None)?;
        let health_points = i32::from_bytes(&mut cursor, None)?;
        byte_stream.follow(&cursor);
        Ok((position, x_size, y_size, state, c_level, font, maximum_health_points, health_points))
    }

    fn encode_part_4(&self) -> (bytes: Vec<u8>)
        requires
            Self::encodable_part_4(self.model()),
        ensures
            bytes@ == Self::encoding_part_4(self.model()),
    {
        proof {
            reveal(EntityAppeared2Packet::encoding_part_4);
        }
        let mut bytes = self.position.to_bytes(None);
        let mut piece = self.x_size.to_bytes(None);
        bytes.append(&mut piece);
        let mut piece = self.y_size.to_bytes(None);
        bytes.append(&mut piece);
        let mut piece = self.state.to_bytes(None);
        bytes.append(&mut piece);
        let mut piece = self.c_level.to_bytes(None);
        bytes.append(&mut piece);
        let mut piece = self.font.to_bytes(None);
        bytes.append(&mut piece);
        let mut piece = self.maximum_health_points.to_bytes(None);
        bytes.append(&mut piece);
        let mut piece = self.health_points.to_bytes(None);
        bytes.append(&mut piece);
        bytes
    }

    #[verifier::rlimit(50)]
    proof fn lemma_round_trip_part_4(value: EntityAppeared2PacketModel, data: Seq<u8>, at: int)
        requires
            Self::encodable_part_4(value),
            holds_at(data, at, Self::encoding_part_4(value)),
        ensures
            Self::decoding_part_4(data, at) == Ok::<
                ((WorldPosition, u8, u8, u8, u16, u16, i32, i32), nat),
                ConversionError,
            >(
                (
                    (
                        value.position,
                        value.x_size,
                        value.y_size,
                        value.state,
                        value.c_level,
                        value.font,
                        value.maximum_health_points,
                        value.health_points,
                    ),
                    Self::encoding_part_4(value).len(),
                ),
            ),
    {
        reveal(EntityAppeared2Packet::decoding_part_4);
        reveal(EntityAppeared2Packet::encoding_part_4);
        let piece_0 = WorldPosition::encoding(value.position, None);
        let piece_1 = u8::encoding(value.x_size, None);
        let piece_2 = u8::encoding(value.y_size, None);
        let piece_3 = u8::encoding(value.state, None);
        let piece_4 = u16::encoding(value.c_level, None);
        let piece_5 = u16::encoding(value.font, None);
        let piece_6 = i32::encoding(value.maximum_health_points, None);
        let piece_7 = i32::encoding(value.health_points, None);
        let front_1 = piece_0;
        let front_2 = front_1 + piece_1;
        let front_3 = front_2 + piece_2;
        let front_4 = front_3 + piece_3;
        let front_5 = front_4 + piece_4;
        let front_6 = front_5 + piece_5;
        let front_7 = front_6 + piece_6;
        lemma_holds_at_split(data, at, front_7, piece_7);
        lemma_holds_at_split(data, at, front_6, piece_6);
        lemma_holds_at_split(data, at, front_5, piece_5);
        lemma_holds_at_split(data, at, front_4, piece_4);
        lemma_holds_at_split(data, at, front_3, piece_3);
        lemma_holds_at_split(data, at, front_2, piece_2);
        lemma_holds_at_split(data, at, front_1, piece_1);
        WorldPosition::lemma_round_trip(value.position, None, data, at);
        u8::lemma_round_trip(value.x_size, None, data, at + front_1.len());
        u8::lemma_round_trip(value.y_size, None, data, at + front_2.len());
        u8::lemma_round_trip(value.state, None, data, at + front_3.len());
        u16::lemma_round_trip(value.c_level, None, data, at + front_4.len());
        u16::lemma_round_trip(value.font, None, data, at + front_5.len());
        i32::lemma_round_trip(value.maximum_health_points, None, data, at + front_6.len());
        i32::lemma_round_trip(value.health_points, None, data, at + front_7.len());
    }

    proof fn lemma_size_part_4(data: Seq<u8>, at: int, value: EntityAppeared2PacketModel)
        ensures
            Self::decoding_part_4(data, at) matches Ok((_, length)) ==> length == 18,
            Self::encodable_part_4(value) ==> Self::encoding_part_4(value).len() == 18,
    {
        reveal(EntityAppeared2Packet::decoding_part_4);
        reveal(EntityAppeared2Packet::encoding_part_4);
        WorldPosition::lemma_fixed_size(data, at, value.position);
        u8::lemma_fixed_size(data, at + 3, value.x_size);
        u8::lemma_fixed_size(data, at + 4, value.y_size);
        u8::lemma_fixed_size(data, at + 5, value.state);
        u16::lemma_fixed_size(data, at + 6, value.c_level);
        u16::lemma_fixed_size(data, at + 8, value.font);
        i32::lemma_fixed_size(data, at + 10, value.maximum_health_points);
        i32::lemma_fixed_size(data, at + 14, value.health_points);
    }

    /// What the fields from `is_boss` to `name` decode to.
    #[verifier::opaque]
    pub open spec fn decoding_part_5(data: Seq<u8>, at: int) -> Result<
        ((u8, u16, Seq<char>), nat),
        ConversionError,
    > {
        let is_boss = u8::decoding(data, at, None);
        let at_body = behind(at, is_boss);
        let body = u16::decoding(data, at_body, None);
        let at_name = behind(at_body, body);
        let name = String::decoding(data, at_name, Some(24));
        let behind_all = behind(at_name, name);
        if is_boss is Err {
            Err(is_boss->Err_0)
        } else if body is Err {
            Err(body->Err_0)
        } else if name is Err {
            Err(name->Err_0)
        } else {
            Ok(
                (
                    (
                        is_boss->Ok_0.0,
                        body->Ok_0.0,
                        name->Ok_0.0,
                    ),
                    (behind_all - at) as nat,
                ),
            )
        }
    }

    /// Whether the fields from `is_boss` to `name` have a wire form.
    pub open spec fn encodable_part_5(value: EntityAppeared2PacketModel) -> bool {
        String::encodable(value.name, Some(24))
    }

    /// The wire form of the fields from `is_boss` to `name`.
    #[verifier::opaque]
    pub open spec fn encoding_part_5(value: EntityAppeared2PacketModel) -> Seq<u8> {
        u8::encoding(value.is_boss, None)
            + u16::encoding(value.body, None)
            + String::encoding(value.name, Some(24))
    }

    fn decode_part_5(byte_stream: &mut ByteStream) -> (result: Result<
        (u8, u16, String),
        ConversionError,
    >)
        ensures
            final(byte_stream).data() == old(byte_stream).data(),
            final(byte_stream).version() == old(byte_stream).version(),
            match Self::decoding_part_5(old(byte_stream).data(), old(byte_stream).offset() as int) {
                Ok((value, length)) => {
                    &&& result is Ok
                    &&& result->Ok_0.0.model() == value.0
                    &&& result->Ok_0.1.model() == value.1
                    &&& result->Ok_0.2.model() == value.2
                    &&& final(byte_stream).offset() == old(byte_stream).offset() + length
                },
                Err(error) => {
                    &&& result is Err
                    &&& result->Err_0 == error
                    &&& final(byte_stream).offset() == old(byte_stream).offset()
                },
            },
    {
        proof {
            reveal(EntityAppeared2Packet::decoding_part_5);
        }
        let mut cursor = byte_stream.fork();
        let is_boss = u8::from_bytes(&mut cursor, None)?;
        let body = u16::from_bytes(&mut cursor, None)?;
        let name = String::from_bytes(&mut cursor, Some(24))?;
        byte_stream.follow(&cursor);
        Ok((is_boss, body, name))
    }

    fn encode_part_5(&self) -> (bytes: Vec<u8>)
        requires
            Self::encodable_part_5(self.model()),
        ensures
            bytes@ == Self::encoding_part_5(self.model()),
    {
        proof {
            reveal(EntityAppeared2Packet::encoding_part_5);
        }
        let mut bytes = self.is_boss.to_bytes(None);
        let mut piece = self.body.to_bytes(None);
        bytes.append(&mut piece);
        let mut piece = self.name.to_bytes(Some(24));
        bytes.append(&mut piece);
        bytes
    }

    #[verifier::rlimit(50)]
    proof fn lemma_round_trip_part_5(value: EntityAppeared2PacketModel, data: Seq<u8>, at: int)
        requires
            Self::encodable_part_5(value),
            String::faithful(value.name, Some(24)),
            holds_at(data, at, Self::encoding_part_5(value)),
        ensures
            Self::decoding_part_5(data, at) == Ok::<((u8, u16, Seq<char>), nat), ConversionError>(
                (
                    (
                        value.is_boss,
                        value.body,
                        value.name,
                    ),
                    Self::encoding_part_5(value).len(),
                ),
            ),
    {
        reveal(EntityAppeared2Packet::decoding_part_5);
        reveal(EntityAppeared2Packet::encoding_part_5);
        let piece_0 = u8::encoding(value.is_boss, None);
        let piece_1 = u16::encoding(value.body, None);
        let piece_2 = String::encoding(value.name, Some(24));
        let front_1 = piece_0;
        let front_2 = front_1 + piece_1;
        lemma_holds_at_split(data, at, front_2, piece_2);
        lemma_holds_at_split(data, at, front_1, piece_1);
        u8::lemma_round_trip(value.is_boss, None, data, at);
        u16::lemma_round_trip(value.body, None, data, at + front_1.len());
        String::lemma_round_trip(value.name, Some(24), data, at + front_2.len());
    }

    proof fn lemma_size_part_5(data: Seq<u8>, at: int, value: EntityAppeared2PacketModel)
        ensures
            Self::decoding_part_5(data, at) matches Ok((_, length)) ==> length == 27,
            Self::encodable_part_5(value) ==> Self::encoding_part_5(value).len() == 27,
    {
        reveal(EntityAppeared2Packet::decoding_part_5);
        reveal(EntityAppeared2Packet::encoding_part_5);
        u8::lemma_fixed_size(data, at, value.is_boss);
        u16::lemma_fixed_size(data, at + 1, value.body);
    }
}

impl Packet for EntityAppeared2Packet {
    type Model = EntityAppeared2PacketModel;

    const PACKET_NAME: &'static str = "EntityAppeared2Packet";

    const IS_PING: bool = false;

    open spec fn model(&self) -> EntityAppeared2PacketModel {
        EntityAppeared2PacketModel {
            packet_length: self.packet_length.model(),
            object_type: self.object_type.model(),
            entity_id: self.entity_id.model(),
            group_id: self.group_id.model(),
            movement_speed: self.movement_speed.model(),
            body_state: self.body_state.model(),
            health_state: self.health_state.model(),
            effect_state: self.effect_state.model(),
            job: self.job.model(),
            head: self.head.model(),
            weapon: self.weapon.model(),
            shield: self.shield.model(),
            accessory: self.accessory.model(),
            accessory2: self.accessory2.model(),
            accessory3: self.accessory3.model(),
            head_palette: self.head_palette.model(),
            body_palette: self.body_palette.model(),
            head_direction: self.head_direction.model(),
            robe: self.robe.model(),
            guild_id: self.guild_id.model(),
            emblem_version: self.emblem_version.model(),
            honor: self.honor.model(),
            virtue: self.virtue.model(),
            is_pk_mode_on: self.is_pk_mode_on.model(),
            sex: self.sex.model(),
            position: self.position.model(),
            x_size: self.x_size.model(),
            y_size: self.y_size.model(),
            state: self.state.model(),
            c_level: self.c_level.model(),
            font: self.font.model(),
            maximum_health_points: self.maximum_health_points.model(),
            health_points: self.health_points.model(),
            is_boss: self.is_boss.model(),
            body: self.body.model(),
            name: self.name.model(),
        }
    }

    open spec fn packet_header() -> u16 {
        0x09ff
    }

    #[verifier::opaque]
    open spec fn payload_decoding(data: Seq<u8>, at: int) -> Result<
        (EntityAppeared2PacketModel, nat),
        ConversionError,
    > {
        let packet_length = u16::decoding(data, at, None);
        let end = at - 2 + packet_length->Ok_0.0;
        let frame = data.take(end);
        let at_part_1 = behind(at, packet_length);
        let part_1 = Self::decoding_part_1(frame, at_part_1);
        let at_part_2 = behind(at_part_1, part_1);
        let part_2 = Self::decoding_part_2(frame, at_part_2);
        let at_part_3 = behind(at_part_2, part_2);
        let part_3 = Self::decoding_part_3(frame, at_part_3);
        let at_part_4 = behind(at_part_3, part_3);
        let part_4 = Self::decoding_part_4(frame, at_part_4);
        let at_part_5 = behind(at_part_4, part_4);
        let part_5 = Self::decoding_part_5(frame, at_part_5);
        let behind_all = behind(at_part_5, part_5);
        if packet_length is Err {
            Err(packet_length->Err_0)
        } else if packet_length->Ok_0.0 < 4 {
            Err(ConversionError::Invalid)
        } else if end > data.len() {
            Err(ConversionError::Incomplete)
        } else if part_1 is Err
            || part_2 is Err
            || part_3 is Err
            || part_4 is Err
            || part_5 is Err
            || behind_all != end {
            Err(ConversionError::Invalid)
        } else {
            Ok(
                (
                    EntityAppeared2PacketModel {
                        packet_length: packet_length->Ok_0.0,
                        object_type: part_1->Ok_0.0.0,
                        entity_id: part_1->Ok_0.0.1,
                        group_id: part_1->Ok_0.0.2,
                        movement_speed: part_1->Ok_0.0.3,
                        body_state: part_1->Ok_0.0.4,
                        health_state: part_1->Ok_0.0.5,
                        effect_state: part_1->Ok_0.0.6,
                        job: part_1->Ok_0.0.7,
                        head: part_2->Ok_0.0.0,
                        weapon: part_2->Ok_0.0.1,
                        shield: part_2->Ok_0.0.2,
                        accessory: part_2->Ok_0.0.3,
                        accessory2: part_2->Ok_0.0.4,
                        accessory3: part_2->Ok_0.0.5,
                        head_palette: part_2->Ok_0.0.6,
                        body_palette: part_2->Ok_0.0.7,
                        head_direction: part_3->Ok_0.0.0,
                        robe: part_3->Ok_0.0.1,
                        guild_id: part_3->Ok_0.0.2,
                        emblem_version: part_3->Ok_0.0.3,
                        honor: part_3->Ok_0.0.4,
                        virtue: part_3->Ok_0.0.5,
                        is_pk_mode_on: part_3->Ok_0.0.6,
                        sex: part_3->Ok_0.0.7,
                        position: part_4->Ok_0.0.0,
                        x_size: part_4->Ok_0.0.1,
                        y_size: part_4->Ok_0.0.2,
                        state: part_4->Ok_0.0.3,
                        c_level: part_4->Ok_0.0.4,
                        font: part_4->Ok_0.0.5,
                        maximum_health_points: part_4->Ok_0.0.6,
                        health_points: part_4->Ok_0.0.7,
                        is_boss: part_5->Ok_0.0.0,
                        body: part_5->Ok_0.0.1,
                        name: part_5->Ok_0.0.2,
                    },
                    (behind_all - at) as nat,
                ),
            )
        }
    }

    open spec fn encodable(value: EntityAppeared2PacketModel) -> bool {
        &&& Self::encodable_part_4(value)
        &&& Self::encodable_part_5(value)
        &&& value.packet_length == 2 + Self::payload_encoding(value).len()
    }

    open spec fn faithful(value: EntityAppeared2PacketModel) -> bool {
        String::faithful(value.name, Some(24))
    }

    #[verifier::opaque]
    open spec fn payload_encoding(value: EntityAppeared2PacketModel) -> Seq<u8> {
        u16::encoding(value.packet_length, None)
            + Self::encoding_part_1(value)
            + Self::encoding_part_2(value)
            + Self::encoding_part_3(value)
            + Self::encoding_part_4(value)
            + Self::encoding_part_5(value)
    }

    fn header() -> (header: u16) {
        0x09ff
    }

    fn payload_from_bytes(byte_stream: &mut ByteStream) -> (result: Result<
        Self,
        ConversionError,
    >) {
        proof {
            reveal(<EntityAppeared2Packet as Packet>::payload_decoding);
        }
        let mut cursor = byte_stream.fork();
        let packet_length = u16::from_bytes(&mut cursor, None)?;
        if packet_length < 4 {
            return Err(ConversionError::Invalid);
        }
        if cursor.remaining_length() < (packet_length - 4) as usize {
            return Err(ConversionError::Incomplete);
        }
        let end = cursor.get_offset() + (packet_length - 4) as usize;
        let mut frame = cursor.frame(end);
        let (
            object_type,
            entity_id,
            group_id,
            movement_speed,
            body_state,
            health_state,
            effect_state,
            job,
        ) = match Self::decode_part_1(&mut frame) {
            Ok(value) => value,
            Err(_) => return Err(ConversionError::Invalid),
        };
        let (
            head,
            weapon,
            shield,
            accessory,
            accessory2,
            accessory3,
            head_palette,
            body_palette,
        ) = match Self::decode_part_2(&mut frame) {
            Ok(value) => value,
            Err(_) => return Err(ConversionError::Invalid),
        };
        let (
            head_direction,
            robe,
            guild_id,
            emblem_version,
            honor,
            virtue,
            is_pk_mode_on,
            sex,
        ) = match Self::decode_part_3(&mut frame) {
            Ok(value) => value,
            Err(_) => return Err(ConversionError::Invalid),
        };
        let (
            position,
            x_size,
            y_size,
            state,
            c_level,
            font,
            maximum_health_points,
            health_points,
        ) = match Self::decode_part_4(&mut frame) {
            Ok(value) => value,
            Err(_) => return Err(ConversionError::Invalid),
        };
        let (is_boss, body, name) = match Self::decode_part_5(&mut frame) {
            Ok(value) => value,
            Err(_) => return Err(ConversionError::Invalid),
        };
        if !frame.is_empty() {
            return Err(ConversionError::Invalid);
        }
        byte_stream.follow(&frame);
        Ok(EntityAppeared2Packet {
            packet_length,
            object_type,
            entity_id,
            group_id,
            movement_speed,
            body_state,
            health_state,
            effect_state,
            job,
            head,
            weapon,
            shield,
            accessory,
            accessory2,
            accessory3,
            head_palette,
            body_palette,
            head_direction,
            robe,
            guild_id,
            emblem_version,
            honor,
            virtue,
            is_pk_mode_on,
            sex,
            position,
            x_size,
            y_size,
            state,
            c_level,
            font,
            maximum_health_points,
            health_points,
            is_boss,
            body,
            name,
        })
    }

    fn payload_to_bytes(&self) -> (bytes: Vec<u8>) {
        proof {
            reveal(<EntityAppeared2Packet as Packet>::payload_encoding);
        }
        let mut bytes = self.packet_length.to_bytes(None);
        let mut piece = self.encode_part_1();
        bytes.append(&mut piece);
        let mut piece = self.encode_part_2();
        bytes.append(&mut piece);
        let mut piece = self.encode_part_3();
        bytes.append(&mut piece);
        let mut piece = self.encode_part_4();
        bytes.append(&mut piece);
        let mut piece = self.encode_part_5();
        bytes.append(&mut piece);
        bytes
    }

    proof fn lemma_payload_round_trip(value: EntityAppeared2PacketModel, data: Seq<u8>, at: int) {
        reveal(<EntityAppeared2Packet as Packet>::payload_decoding);
        reveal(<EntityAppeared2Packet as Packet>::payload_encoding);
        let piece_0 = u16::encoding(value.packet_length, None);
        let piece_1 = Self::encoding_part_1(value);
        let piece_2 = Self::encoding_part_2(value);
        let piece_3 = Self::encoding_part_3(value);
        let piece_4 = Self::encoding_part_4(value);
        let piece_5 = Self::encoding_part_5(value);
        let front_1 = piece_0;
        let front_2 = front_1 + piece_1;
        let front_3 = front_2 + piece_2;
        let front_4 = front_3 + piece_3;
        let front_5 = front_4 + piece_4;
        lemma_holds_at_split(data, at, front_5, piece_5);
        lemma_holds_at_split(data, at, front_4, piece_4);
        lemma_holds_at_split(data, at, front_3, piece_3);
        lemma_holds_at_split(data, at, front_2, piece_2);
        lemma_holds_at_split(data, at, front_1, piece_1);
        lemma_holds_at_bounds(data, at, Self::payload_encoding(value));
        let end = at - 2 + value.packet_length;
        let frame = data.take(end);
        u16::lemma_round_trip(value.packet_length, None, data, at);
        lemma_holds_at_take(data, end, at + front_1.len(), piece_1);
        Self::lemma_size_part_1(frame, at + front_1.len(), value);
        Self::lemma_round_trip_part_1(value, frame, at + front_1.len());
        lemma_holds_at_take(data, end, at + front_2.len(), piece_2);
        Self::lemma_size_part_2(frame, at + front_2.len(), value);
        Self::lemma_round_trip_part_2(value, frame, at + front_2.len());
        lemma_holds_at_take(data, end, at + front_3.len(), piece_3);
        Self::lemma_size_part_3(frame, at + front_3.len(), value);
        Self::lemma_round_trip_part_3(value, frame, at + front_3.len());
        lemma_holds_at_take(data, end, at + front_4.len(), piece_4);
        Self::lemma_size_part_4(frame, at + front_4.len(), value);
        Self::lemma_round_trip_part_4(value, frame, at + front_4.len());
        lemma_holds_at_take(data, end, at + front_5.len(), piece_5);
        Self::lemma_size_part_5(frame, at + front_5.len(), value);
        Self::lemma_round_trip_part_5(value, frame, at + front_5.len());
    }
}

impl LengthPrefixed for EntityAppeared2Packet {
    open spec fn announced_length(value: EntityAppeared2PacketModel) -> u16 {
        value.packet_length
    }

    proof fn lemma_exact_length(data: Seq<u8>, at: int) {
        reveal(<EntityAppeared2Packet as Packet>::payload_decoding);
    }
}

#[derive(Clone, Copy, Debug)]
pub struct StateChangePacket {
    pub entity_id: EntityId,
    pub body_state: u16,
    pub health_state: u16,
    pub effect_state: u32,
    pub is_pk_mode_on: u8,
}

impl Packet for StateChangePacket {
    type Model = StateChangePacket;

    const PACKET_NAME: &'static str = "StateChangePacket";

    const IS_PING: bool = false;

    open spec fn model(&self) -> StateChangePacket {
        *self
    }

    open spec fn packet_header() -> u16 {
        0x0229
    }

    #[verifier::opaque]
    open spec fn payload_decoding(data: Seq<u8>, at: int) -> Result<
        (StateChangePacket, nat),
        ConversionError,
    > {
        let entity_id = EntityId::decoding(data, at, None);
        let at_body_state = behind(at, entity_id);
        let body_state = u16::decoding(data, at_body_state, None);
        let at_health_state = behind(at_body_state, body_state);
        let health_state = u16::decoding(data, at_health_state, None);
        let at_effect_state = behind(at_health_state, health_state);
        let effect_state = u32::decoding(data, at_effect_state, None);
        let at_is_pk_mode_on = behind(at_effect_state, effect_state);
        let is_pk_mode_on = u8::decoding(data, at_is_pk_mode_on, None);
        let behind_all = behind(at_is_pk_mode_on, is_pk_mode_on);
        if entity_id is Err {
            Err(entity_id->Err_0)
        } else if body_state is Err {
            Err(body_state->Err_0)
        } else if health_state is Err {
            Err(health_state->Err_0)
        } else if effect_state is Err {
            Err(effect_state->Err_0)
        } else if is_pk_mode_on is Err {
            Err(is_pk_mode_on->Err_0)
        } else {
            Ok(
                (
                    StateChangePacket {
                        entity_id: entity_id->Ok_0.0,
                        body_state: body_state->Ok_0.0,
                        health_state: health_state->Ok_0.0,
                        effect_state: effect_state->Ok_0.0,
                        is_pk_mode_on: is_pk_mode_on->Ok_0.0,
                    },
                    (behind_all - at) as nat,
                ),
            )
        }
    }

    open spec fn encodable(value: StateChangePacket) -> bool {
        true
    }

    #[verifier::opaque]
    open spec fn payload_encoding(value: StateChangePacket) -> Seq<u8> {
        EntityId::encoding(value.entity_id, None)
            + u16::encoding(value.body_state, None)
            + u16::encoding(value.health_state, None)
            + u32::encoding(value.effect_state, None)
            + u8::encoding(value.is_pk_mode_on, None)
    }

    fn header() -> (header: u16) {
        0x0229
    }

    fn payload_from_bytes(byte_stream: &mut ByteStream) -> (result: Result<
        Self,
        ConversionError,
    >) {
        proof {
            reveal(<StateChangePacket as Packet>::payload_decoding);
        }
        let mut cursor = byte_stream.fork();
        let entity_id = EntityId::from_bytes(&mut cursor, None)?;
        let body_state = u16::from_bytes(&mut cursor, None)?;
        let health_state = u16::from_bytes(&mut cursor, None)?;
        let effect_state = u32::from_bytes(&mut cursor, None)?;
        let is_pk_mode_on = u8::from_bytes(&mut cursor, None)?;
        byte_stream.follow(&cursor);
        Ok(StateChangePacket {
            entity_id,
            body_state,
            health_state,
            effect_state,
            is_pk_mode_on,
        })
    }

    fn payload_to_bytes(&self) -> (bytes: Vec<u8>) {
        proof {
            reveal(<StateChangePacket as Packet>::payload_encoding);
        }
        let mut bytes = self.entity_id.to_bytes(None);
        let mut piece = self.body_state.to_bytes(None);
        bytes.append(&mut piece);
        let mut piece = self.health_state.to_bytes(None);
        bytes.append(&mut piece);
        let mut piece = self.effect_state.to_bytes(None);
        bytes.append(&mut piece);
        let mut piece = self.is_pk_mode_on.to_bytes(None);
        bytes.append(&mut piece);
        bytes
    }

    proof fn lemma_payload_round_trip(value: StateChangePacket, data: Seq<u8>, at: int) {
        reveal(<StateChangePacket as Packet>::payload_decoding);
        reveal(<StateChangePacket as Packet>::payload_encoding);
        let piece_0 = EntityId::encoding(value.entity_id, None);
        let piece_1 = u16::encoding(value.body_state, None);
        let piece_2 = u16::encoding(value.health_state, None);
        let piece_3 = u32::encoding(value.effect_state, None);
        let piece_4 = u8::encoding(value.is_pk_mode_on, None);
        let front_1 = piece_0;
        let front_2 = front_1 + piece_1;
        let front_3 = front_2 + piece_2;
        let front_4 = front_3 + piece_3;
        lemma_holds_at_split(data, at, front_4, piece_4);
        lemma_holds_at_split(data, at, front_3, piece_3);
        lemma_holds_at_split(data, at, front_2, piece_2);
        lemma_holds_at_split(data, at, front_1, piece_1);
        EntityId::lemma_round_trip(value.entity_id, None, data, at);
        u16::lemma_round_trip(value.body_state, None, data, at + front_1.len());
        u16::lemma_round_trip(value.health_state, None, data, at + front_2.len());
        u32::lemma_round_trip(value.effect_state, None, data, at + front_3.len());
        u8::lemma_round_trip(value.is_pk_mode_on, None, data, at + front_4.len());
    }
}

#[derive(Clone, Copy, Debug, PartialEq, Eq, Structural)]
pub enum VisualEffect {
    BaseLevelUp,
    JobLevelUp,
    RefineFailure,
    RefineSuccess,
    GameOver,
    PharmacySuccess,
    PharmacyFailure,
    BaseLevelUpSuperNovice,
    JobLevelUpSuperNovice,
    BaseLevelUpTaekwon,
}

impl VisualEffect {
    /// The number that stands for a variant on the wire.
    pub open spec fn code(self) -> u32 {
        match self {
            VisualEffect::BaseLevelUp => 0,
            VisualEffect::JobLevelUp => 1,
            VisualEffect::RefineFailure => 2,
            VisualEffect::RefineSuccess => 3,
            VisualEffect::GameOver => 4,
            VisualEffect::PharmacySuccess => 5,
            VisualEffect::PharmacyFailure => 6,
            VisualEffect::BaseLevelUpSuperNovice => 7,
            VisualEffect::JobLevelUpSuperNovice => 8,
            VisualEffect::BaseLevelUpTaekwon => 9,
        }
    }

    /// The variant that a number stands for.
    pub open spec fn of_code(code: u32) -> Option<VisualEffect> {
        if code == 0 {
            Some(VisualEffect::BaseLevelUp)
        } else if code == 1 {
            Some(VisualEffect::JobLevelUp)
        } else if code == 2 {
            Some(VisualEffect::RefineFailure)
        } else if code == 3 {
            Some(VisualEffect::RefineSuccess)
        } else if code == 4 {
            Some(VisualEffect::GameOver)
        } else if code == 5 {
            Some(VisualEffect::PharmacySuccess)
        } else if code == 6 {
            Some(VisualEffect::PharmacyFailure)
        } else if code == 7 {
            Some(VisualEffect::BaseLevelUpSuperNovice)
        } else if code == 8 {
            Some(VisualEffect::JobLevelUpSuperNovice)
        } else if code == 9 {
            Some(VisualEffect::BaseLevelUpTaekwon)
        } else {
            None
        }
    }
}

impl ByteConvertable for VisualEffect {
    type Model = VisualEffect;

    open spec fn model(&self) -> VisualEffect {
        *self
    }

    open spec fn accepts(length_hint: Option<usize>) -> bool {
        length_hint is None
    }

    open spec fn decoding(data: Seq<u8>, at: int, length_hint: Option<usize>) -> Result<
        (VisualEffect, nat),
        ConversionError,
    > {
        match u32::decoding(data, at, None) {
            Ok((code, length)) => match VisualEffect::of_code(code) {
                Some(value) => Ok((value, length)),
                None => Err(ConversionError::Invalid),
            },
            Err(error) => Err(error),
        }
    }

    open spec fn encodable(value: VisualEffect, length_hint: Option<usize>) -> bool {
        true
    }

    open spec fn encoding(value: VisualEffect, length_hint: Option<usize>) -> Seq<u8> {
        u32::encoding(value.code(), None)
    }

    fn from_bytes(byte_stream: &mut ByteStream, length_hint: Option<usize>) -> (result: Result<
        Self,
        ConversionError,
    >) {
        let mut cursor = byte_stream.fork();
        let code = u32::from_bytes(&mut cursor, None)?;
        let value = match code {
            0 => VisualEffect::BaseLevelUp,
            1 => VisualEffect::JobLevelUp,
            2 => VisualEffect::RefineFailure,
            3 => VisualEffect::RefineSuccess,
            4 => VisualEffect::GameOver,
            5 => VisualEffect::PharmacySuccess,
            6 => VisualEffect::PharmacyFailure,
            7 => VisualEffect::BaseLevelUpSuperNovice,
            8 => VisualEffect::JobLevelUpSuperNovice,
            9 => VisualEffect::BaseLevelUpTaekwon,
            _ => return Err(ConversionError::Invalid),
        };
        byte_stream.follow(&cursor);
        Ok(value)
    }

    fn to_bytes(&self, length_hint: Option<usize>) -> (bytes: Vec<u8>) {
        let code: u32 = match self {
            VisualEffect::BaseLevelUp => 0,
            VisualEffect::JobLevelUp => 1,
            VisualEffect::RefineFailure => 2,
            VisualEffect::RefineSuccess => 3,
            VisualEffect::GameOver => 4,
            VisualEffect::PharmacySuccess => 5,
            VisualEffect::PharmacyFailure => 6,
            VisualEffect::BaseLevelUpSuperNovice => 7,
            VisualEffect::JobLevelUpSuperNovice => 8,
            VisualEffect::BaseLevelUpTaekwon => 9,
        };
        code.to_bytes(None)
    }

    proof fn lemma_round_trip(
        value: VisualEffect,
        length_hint: Option<usize>,
        data: Seq<u8>,
        at: int,
    ) {
        u32::lemma_round_trip(value.code(), None, data, at);
    }
}

impl FixedByteSize for VisualEffect {
    open spec fn size() -> nat {
        4
    }

    fn size_in_bytes() -> (size: usize) {
        4
    }

    proof fn lemma_fixed_size(data: Seq<u8>, at: int, value: VisualEffect) {
        assert(Self::size() == 4);
    }
}

#[derive(Clone, Copy, Debug)]
pub struct VisualEffectPacket {
    pub entity_id: EntityId,
    pub effect: VisualEffect,
}

impl Packet for VisualEffectPacket {
    type Model = VisualEffectPacket;

    const PACKET_NAME: &'static str = "VisualEffectPacket";

    const IS_PING: bool = false;

    open spec fn model(&self) -> VisualEffectPacket {
        *self
    }

    open spec fn packet_header() -> u16 {
        0x019b
    }

    #[verifier::opaque]
    open spec fn payload_decoding(data: Seq<u8>, at: int) -> Result<
        (VisualEffectPacket, nat),
        ConversionError,
    > {
        let entity_id = EntityId::decoding(data, at, None);
        let at_effect = behind(at, entity_id);
        let effect = VisualEffect::decoding(data, at_effect, None);
        let behind_all = behind(at_effect, effect);
        if entity_id is Err {
            Err(entity_id->Err_0)
        } else if effect is Err {
            Err(effect->Err_0)
        } else {
            Ok(
                (
                    VisualEffectPacket {
                        entity_id: entity_id->Ok_0.0,
                        effect: effect->Ok_0.0,
                    },
                    (behind_all - at) as nat,
                ),
            )
        }
    }

    open spec fn encodable(value: VisualEffectPacket) -> bool {
        true
    }

    #[verifier::opaque]
    open spec fn payload_encoding(value: VisualEffectPacket) -> Seq<u8> {
        EntityId::encoding(value.entity_id, None) + VisualEffect::encoding(value.effect, None)
    }

    fn header() -> (header: u16) {
        0x019b
    }

    fn payload_from_bytes(byte_stream: &mut ByteStream) -> (result: Result<
        Self,
        ConversionError,
    >) {
        proof {
            reveal(<VisualEffectPacket as Packet>::payload_decoding);
        }
        let mut cursor = byte_stream.fork();
        let entity_id = EntityId::from_bytes(&mut cursor, None)?;
        let effect = VisualEffect::from_bytes(&mut cursor, None)?;
        byte_stream.follow(&cursor);
        Ok(VisualEffectPacket { entity_id, effect })
    }

    fn payload_to_bytes(&self) -> (bytes: Vec<u8>) {
        proof {
            reveal(<VisualEffectPacket as Packet>::payload_encoding);
        }
        let mut bytes = self.entity_id.to_bytes(None);
        let mut piece = self.effect.to_bytes(None);
        bytes.append(&mut piece);
        bytes
    }

    proof fn lemma_payload_round_trip(value: VisualEffectPacket, data: Seq<u8>, at: int) {
        reveal(<VisualEffectPacket as Packet>::payload_decoding);
        reveal(<VisualEffectPacket as Packet>::payload_encoding);
        let piece_0 = EntityId::encoding(value.entity_id, None);
        let piece_1 = VisualEffect::encoding(value.effect, None);
        let front_1 = piece_0;
        lemma_holds_at_split(data, at, front_1, piece_1);
        EntityId::lemma_round_trip(value.entity_id, None, data, at);
        VisualEffect::lemma_round_trip(value.effect, None, data, at + front_1.len());
    }
}

#[derive(Clone, Copy, Debug)]
pub struct DisplaySpecialEffectPacket {
    pub entity_id: EntityId,
    pub effect_id: u32,
}

impl Packet for DisplaySpecialEffectPacket {
    type Model = DisplaySpecialEffectPacket;

    const PACKET_NAME: &'static str = "DisplaySpecialEffectPacket";

    const IS_PING: bool = false;

    open spec fn model(&self) -> DisplaySpecialEffectPacket {
        *self
    }

    open spec fn packet_header() -> u16 {
        0x01f3
    }

    #[verifier::opaque]
    open spec fn payload_decoding(data: Seq<u8>, at: int) -> Result<
        (DisplaySpecialEffectPacket, nat),
        ConversionError,
    > {
        let entity_id = EntityId::decoding(data, at, None);
        let at_effect_id = behind(at, entity_id);
        let effect_id = u32::decoding(data, at_effect_id, None);
        let behind_all = behind(at_effect_id, effect_id);
        if entity_id is Err {
            Err(entity_id->Err_0)
        } else if effect_id is Err {
            Err(effect_id->Err_0)
        } else {
            Ok(
                (
                    DisplaySpecialEffectPacket {
                        entity_id: entity_id->Ok_0.0,
                        effect_id: effect_id->Ok_0.0,
                    },
                    (behind_all - at) as nat,
                ),
            )
        }
    }

    open spec fn encodable(value: DisplaySpecialEffectPacket) -> bool {
        true
    }

    #[verifier::opaque]
    open spec fn payload_encoding(value: DisplaySpecialEffectPacket) -> Seq<u8> {
        EntityId::encoding(value.entity_id, None) + u32::encoding(value.effect_id, None)
    }

    fn header() -> (header: u16) {
        0x01f3
    }

    fn payload_from_bytes(byte_stream: &mut ByteStream) -> (result: Result<
        Self,
        ConversionError,
    >) {
        proof {
            reveal(<DisplaySpecialEffectPacket as Packet>::payload_decoding);
        }
        let mut cursor = byte_stream.fork();
        let entity_id = EntityId::from_bytes(&mut cursor, None)?;
        let effect_id = u32::from_bytes(&mut cursor, None)?;
        byte_stream.follow(&cursor);
        Ok(DisplaySpecialEffectPacket { entity_id, effect_id })
    }

    fn payload_to_bytes(&self) -> (bytes: Vec<u8>) {
        proof {
            reveal(<DisplaySpecialEffectPacket as Packet>::payload_encoding);
        }
        let mut bytes = self.entity_id.to_bytes(None);
        let mut piece = self.effect_id.to_bytes(None);
        bytes.append(&mut piece);
        bytes
    }

    proof fn lemma_payload_round_trip(value: DisplaySpecialEffectPacket, data: Seq<u8>, at: int) {
        reveal(<DisplaySpecialEffectPacket as Packet>::payload_decoding);
        reveal(<DisplaySpecialEffectPacket as Packet>::payload_encoding);
        let piece_0 = EntityId::encoding(value.entity_id, None);
        let piece_1 = u32::encoding(value.effect_id, None);
        let front_1 = piece_0;
        lemma_holds_at_split(data, at, front_1, piece_1);
        EntityId::lemma_round_trip(value.entity_id, None, data, at);
        u32::lemma_round_trip(value.effect_id, None, data, at + front_1.len());
    }
}

} // verus!
