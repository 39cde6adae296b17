//! What the map server tells the client, as typed events.

use cgmath::Vector2;
use chrono::Local;
use vstd::prelude::*;
use vstd::slice::slice_subrange;
use vstd::string::{StrSliceExecFns, StringExecFns};

use crate::loaders::convertable::{models, ByteConvertable};
use crate::loaders::wire::{i32_of, u16_at, u16_of, u64_of};
use crate::network::character::{CharacterInformation, CharacterInformationModel};
use crate::network::entity::{
    EntityAppeared2Packet, EntityAppeared2PacketModel, EntityAppearedPacket,
    EntityAppearedPacketModel, MovingEntityAppearedPacket, MovingEntityAppearedPacketModel,
};
use crate::network::friend::{Friend, FriendModel};
use crate::network::ids::{AccountId, ClientTick, EntityId, ItemId, ItemIndex, Sex};
use crate::network::inventory::EquipPosition;
use crate::network::packet::Packet;
use crate::network::quest::QuestEffectPacket;
use crate::network::skill::{SkillInformation, SkillInformationModel, UnitId};
use crate::network::status_type::StatusType;

verus! {

/// A color of the interface.
#[derive(Clone, Copy, Debug, PartialEq, Eq, Structural)]
pub struct Color {
    pub red: u8,
    pub green: u8,
    pub blue: u8,
    pub alpha: u8,
}

impl Color {
    /// The opaque color of the given parts.
    pub open spec fn of(red: u8, green: u8, blue: u8) -> Color {
        Color { red, green, blue, alpha: 255 }
    }

    pub fn rgb(red: u8, green: u8, blue: u8) -> (color: Color)
        ensures
            color == Color::of(red, green, blue),
    {
        Color { red, green, blue, alpha: 255 }
    }

    pub fn monochrome(brightness: u8) -> (color: Color)
        ensures
            color == Color::of(brightness, brightness, brightness),
    {
        Color { red: brightness, green: brightness, blue: brightness, alpha: 255 }
    }
}

/// The shape of the stamp of a chat message: the code of a green, the hour,
/// the minute and the second of a time of day in two digits each, and the
/// code of black.
pub open spec fn is_time_stamp(stamp: Seq<char>) -> bool {
    &&& stamp.len() == 24
    &&& stamp.take(7) == "^66BB44"@
    &&& stamp[9] == ':'
    &&& stamp[12] == ':'
    &&& stamp.skip(15) == ": ^000000"@
}

/// The time of day in the local time zone, as the stamp of a chat message.
/// `Local::now` and `DateTime::format` of chrono give it. Which time it shows
/// depends on the clock and on the time zone. What is claimed is the shape
/// that the format gives to every time: chrono writes the hour, the minute
/// and the second with two digits each and the rest of the format as it is.
#[verifier::external_body]
fn time_stamp() -> (stamp: String)
    ensures
        is_time_stamp(stamp@),
{
    Local::now().format("^66BB44%H:%M:%S: ^000000").to_string()
}

/// A message of the chat: a text with the stamp of its time before it.
pub struct ChatMessage {
    text: String,
    color: Color,
    offset: usize,
}

impl ChatMessage {
    #[verifier::type_invariant]
    spec fn stamp_inside(self) -> bool {
        self.offset <= self.text@.len()
    }

    /// The stamp of the message.
    pub closed spec fn stamp(&self) -> Seq<char> {
        self.text@.take(self.offset as int)
    }

    /// The message without its stamp.
    pub closed spec fn message(&self) -> Seq<char> {
        self.text@.skip(self.offset as int)
    }

    /// The color in which the message is shown.
    pub closed spec fn shade(&self) -> Color {
        self.color
    }

    /// The message with the given stamp before it.
    pub fn stamped(stamp: String, text: String, color: Color) -> (message: Self)
        ensures
            message.stamp() == stamp@,
            message.message() == text@,
            message.shade() == color,
    {
        let offset = stamp.as_str().unicode_len();
        let mut stamped = stamp;
        stamped.append(text.as_str());
        assert(stamped@.take(offset as int) =~= stamp@);
        assert(stamped@.skip(offset as int) =~= text@);
        ChatMessage { text: stamped, color, offset }
    }

    /// The message with the stamp of the present time before it.
    pub fn new(text: String, color: Color) -> (message: Self)
        ensures
            is_time_stamp(message.stamp()),
            message.message() == text@,
            message.shade() == color,
    {
        ChatMessage::stamped(time_stamp(), text, color)
    }

    /// The text of the message, with its stamp or without it.
    pub fn stamped_text(&self, stamp: bool) -> (text: &str)
        ensures
            stamp ==> text@ == self.stamp() + self.message(),
            !stamp ==> text@ == self.message(),
    {
        proof {
            use_type_invariant(self);
        }
        let whole = self.text.as_str();
        if stamp {
            assert(self.text@.take(self.offset as int) + self.text@.skip(self.offset as int)
                =~= self.text@);
            whole
        } else {
            let length = whole.unicode_len();
            let text = whole.substring_char(self.offset, length);
            assert(text@ =~= self.text@.skip(self.offset as int));
            text
        }
    }

    pub fn color(&self) -> (color: Color)
        ensures
            color == self.shade(),
    {
        self.color
    }
}

/// The unsigned 16-bit integer of the same bits.
fn reinterpret(value: i16) -> (bits: u16)
    ensures
        bits == u16_of(value),
{
    if value >= 0 {
        value as u16
    } else {
        ((value + i16::MAX) + 1) as u16 + 0x8000
    }
}

/// The signed integer of the lower 32 bits of a number.
pub open spec fn lower_half(value: i64) -> i32 {
    i32_of((u64_of(value) % 0x1_0000_0000) as u32)
}

/// The signed integer of the lower 32 bits.
fn truncate(value: i64) -> (lower: i32)
    ensures
        lower == lower_half(value),
{
    let bits: u64 = if value >= 0 {
        value as u64
    } else {
        ((value + i64::MAX) + 1) as u64 + 0x8000_0000_0000_0000
    };
    let lower = (bits % 0x1_0000_0000) as u32;
    if lower < 0x8000_0000 {
        lower as i32
    } else {
        (lower - 0x8000_0000) as i32 + i32::MIN
    }
}

/// What the client knows of an entity when it appears.
#[derive(Clone, Copy, Debug)]
pub struct EntityData {
    pub entity_id: EntityId,
    pub movement_speed: u16,
    pub job: u16,
    pub position: Vector2<usize>,
    pub destination: Option<Vector2<usize>>,
    pub health_points: i32,
    pub maximum_health_points: i32,
    pub head_direction: usize,
    pub sex: Sex,
}

impl EntityData {
    /// The entity of the character of an account. Its numbers are those of the
    /// character, cut to the widths of an entity: the lower 16 bits of speed
    /// and job, the lower 32 bits of the health points.
    pub open spec fn of_character(
        account_id: AccountId,
        character_information: CharacterInformationModel,
        position: Vector2<usize>,
    ) -> EntityData {
        EntityData {
            entity_id: EntityId(account_id.0),
            movement_speed: u16_of(character_information.movement_speed),
            job: u16_of(character_information.job),
            position,
            destination: None,
            health_points: lower_half(character_information.health_points),
            maximum_health_points: lower_half(character_information.maximum_health_points),
            head_direction: 0,
            sex: character_information.sex,
        }
    }

    pub fn from_character(
        account_id: AccountId,
        character_information: CharacterInformation,
        position: Vector2<usize>,
    ) -> (entity: Self)
        ensures
            entity == EntityData::of_character(account_id, character_information.model(), position),
    {
        EntityData {
            entity_id: EntityId(account_id.0),
            movement_speed: reinterpret(character_information.movement_speed),
            job: reinterpret(character_information.job),
            position,
            destination: None,
            health_points: truncate(character_information.health_points),
            maximum_health_points: truncate(character_information.maximum_health_points),
            head_direction: 0,
            sex: character_information.sex,
        }
    }

    /// The entity that a packet announces at rest.
    pub open spec fn of_appeared(packet: EntityAppearedPacketModel) -> EntityData {
        EntityData {
            entity_id: packet.entity_id,
            movement_speed: packet.movement_speed,
            job: packet.job,
            position: Vector2 { x: packet.position.x, y: packet.position.y },
            destination: None,
            health_points: packet.health_points,
            maximum_health_points: packet.maximum_health_points,
            head_direction: packet.head_direction as usize,
            sex: packet.sex,
        }
    }

    /// The entity that a packet of the second form announces at rest.
    pub open spec fn of_appeared2(packet: EntityAppeared2PacketModel) -> EntityData {
        EntityData {
            entity_id: packet.entity_id,
            movement_speed: packet.movement_speed,
            job: packet.job,
            position: Vector2 { x: packet.position.x, y: packet.position.y },
            destination: None,
            health_points: packet.health_points,
            maximum_health_points: packet.maximum_health_points,
            head_direction: packet.head_direction as usize,
            sex: packet.sex,
        }
    }

    /// The entity that a packet announces on its way.
    pub open spec fn of_moving(packet: MovingEntityAppearedPacketModel) -> EntityData {
        EntityData {
            entity_id: packet.entity_id,
            movement_speed: packet.movement_speed,
            job: packet.job,
            position: Vector2 { x: packet.position.x1, y: packet.position.y1 },
            destination: Some(Vector2 { x: packet.position.x2, y: packet.position.y2 }),
            health_points: packet.health_points,
            maximum_health_points: packet.maximum_health_points,
            head_direction: packet.head_direction as usize,
            sex: packet.sex,
        }
    }
}

impl vstd::std_specs::convert::FromSpecImpl<EntityAppearedPacket> for EntityData {
    open spec fn obeys_from_spec() -> bool {
        true
    }

    open spec fn from_spec(packet: EntityAppearedPacket) -> EntityData {
        EntityData::of_appeared(packet.model())
    }
}

impl From<EntityAppearedPacket> for EntityData {
    fn from(packet: EntityAppearedPacket) -> (entity: Self) {
        EntityData {
            entity_id: packet.entity_id,
            movement_speed: packet.movement_speed,
            job: packet.job,
            position: packet.position.to_vector(),
            destination: None,
            health_points: packet.health_points,
            maximum_health_points: packet.maximum_health_points,
            head_direction: packet.head_direction as usize,
            sex: packet.sex,
        }
    }
}

impl vstd::std_specs::convert::FromSpecImpl<EntityAppeared2Packet> for EntityData {
    open spec fn obeys_from_spec() -> bool {
        true
    }

    open spec fn from_spec(packet: EntityAppeared2Packet) -> EntityData {
        EntityData::of_appeared2(packet.model())
    }
}

impl From<EntityAppeared2Packet> for EntityData {
    fn from(packet: EntityAppeared2Packet) -> (entity: Self) {
        EntityData {
            entity_id: packet.entity_id,
            movement_speed: packet.movement_speed,
            job: packet.job,
            position: packet.position.to_vector(),
            destination: None,
            health_points: packet.health_points,
            maximum_health_points: packet.maximum_health_points,
            head_direction: packet.head_direction as usize,
            sex: packet.sex,
        }
    }
}

impl vstd::std_specs::convert::FromSpecImpl<MovingEntityAppearedPacket> for EntityData {
    open spec fn obeys_from_spec() -> bool {
        true
    }

    open spec fn from_spec(packet: MovingEntityAppearedPacket) -> EntityData {
        EntityData::of_moving(packet.model())
    }
}

impl From<MovingEntityAppearedPacket> for EntityData {
    fn from(packet: MovingEntityAppearedPacket) -> (entity: Self) {
        let (origin, destination) = packet.position.to_vectors();

        EntityData {
            entity_id: packet.entity_id,
            movement_speed: packet.movement_speed,
            job: packet.job,
            position: origin,
            destination: Some(destination),
            health_points: packet.health_points,
            maximum_health_points: packet.maximum_health_points,
            head_direction: packet.head_direction as usize,
            sex: packet.sex,
        }
    }
}

/// An item of the inventory: its place, its kind, where it can be worn and
/// where it is worn.
pub type InventoryItem = (ItemIndex, ItemId, EquipPosition, EquipPosition);

/// An event triggered by the map server.
pub enum NetworkEvent {
    /// Add an entity to the list of entities that the client is aware of
    AddEntity(EntityData),
    /// Remove an entity from the list of entities that the client is aware of
    /// by its id
    RemoveEntity(EntityId),
    /// The player is pathing to a new position
    PlayerMove(Vector2<usize>, Vector2<usize>, ClientTick),
    /// An Entity nearby is pathing to a new position
    EntityMove(EntityId, Vector2<usize>, Vector2<usize>, ClientTick),
    /// Player was moved to a new position on a different map or the current map
    ChangeMap(String, Vector2<usize>),
    /// Update the client side tick counter to keep server and client
    /// synchronized
    UpdateClientTick(ClientTick),
    /// New chat message for the client
    ChatMessage(ChatMessage),
    /// Update entity details. Mostly received when the client asks for the
    /// details after the player hovered an entity.
    UpdateEntityDetails(EntityId, String),
    UpdateEntityHealth(EntityId, usize, usize),
    DamageEffect(EntityId, usize),
    HealEffect(EntityId, usize),
    UpdateStatus(StatusType),
    OpenDialog(String, EntityId),
    AddNextButton,
    AddCloseButton,
    AddChoiceButtons(Vec<String>),
    AddQuestEffect(QuestEffectPacket),
    RemoveQuestEffect(EntityId),
    Inventory(Vec<InventoryItem>),
    AddIventoryItem(ItemIndex, ItemId, EquipPosition, EquipPosition),
    SkillTree(Vec<SkillInformation>),
    UpdateEquippedPosition { index: ItemIndex, equipped_position: EquipPosition },
    ChangeJob(AccountId, u32),
    SetPlayerPosition(Vector2<usize>),
    Disconnect,
    FriendRequest(Friend),
    VisualEffect(&'static str, EntityId),
    AddSkillUnit(EntityId, UnitId, Vector2<usize>),
    RemoveSkillUnit(EntityId),
}

/// What a [`NetworkEvent`] stands for. A chat message stands for its text
/// without the stamp, and its color.
pub enum NetworkEventModel {
    AddEntity(EntityData),
    RemoveEntity(EntityId),
    PlayerMove(Vector2<usize>, Vector2<usize>, ClientTick),
    EntityMove(EntityId, Vector2<usize>, Vector2<usize>, ClientTick),
    ChangeMap(Seq<char>, Vector2<usize>),
    UpdateClientTick(ClientTick),
    ChatMessage(Seq<char>, Color),
    UpdateEntityDetails(EntityId, Seq<char>),
    UpdateEntityHealth(EntityId, usize, usize),
    DamageEffect(EntityId, usize),
    HealEffect(EntityId, usize),
    UpdateStatus(StatusType),
    OpenDialog(Seq<char>, EntityId),
    AddNextButton,
    AddCloseButton,
    AddChoiceButtons(Seq<Seq<char>>),
    AddQuestEffect(QuestEffectPacket),
    RemoveQuestEffect(EntityId),
    Inventory(Seq<InventoryItem>),
    AddIventoryItem(ItemIndex, ItemId, EquipPosition, EquipPosition),
    SkillTree(Seq<SkillInformationModel>),
    UpdateEquippedPosition { index: ItemIndex, equipped_position: EquipPosition },
    ChangeJob(AccountId, u32),
    SetPlayerPosition(Vector2<usize>),
    Disconnect,
    FriendRequest(FriendModel),
    VisualEffect(Seq<char>, EntityId),
    AddSkillUnit(EntityId, UnitId, Vector2<usize>),
    RemoveSkillUnit(EntityId),
}

impl NetworkEvent {
    pub open spec fn model(&self) -> NetworkEventModel {
        match self {
            NetworkEvent::AddEntity(entity) => NetworkEventModel::AddEntity(*entity),
            NetworkEvent::RemoveEntity(entity_id) => NetworkEventModel::RemoveEntity(*entity_id),
            NetworkEvent::PlayerMove(from, to, tick) => NetworkEventModel::PlayerMove(
                *from,
                *to,
                *tick,
            ),
            NetworkEvent::EntityMove(entity_id, from, to, tick) => NetworkEventModel::EntityMove(
                *entity_id,
                *from,
                *to,
                *tick,
            ),
            NetworkEvent::ChangeMap(map, position) => NetworkEventModel::ChangeMap(
                map@,
                *position,
            ),
            NetworkEvent::UpdateClientTick(tick) => NetworkEventModel::UpdateClientTick(*tick),
            NetworkEvent::ChatMessage(message) => NetworkEventModel::ChatMessage(
                message.message(),
                message.shade(),
            ),
            NetworkEvent::UpdateEntityDetails(entity_id, name) => {
                NetworkEventModel::UpdateEntityDetails(*entity_id, name@)
            },
            NetworkEvent::UpdateEntityHealth(entity_id, health, maximum) => {
                NetworkEventModel::UpdateEntityHealth(*entity_id, *health, *maximum)
            },
            NetworkEvent::DamageEffect(entity_id, amount) => NetworkEventModel::DamageEffect(
                *entity_id,
                *amount,
            ),
            NetworkEvent::HealEffect(entity_id, amount) => NetworkEventModel::HealEffect(
                *entity_id,
                *amount,
            ),
            NetworkEvent::UpdateStatus(status) => NetworkEventModel::UpdateStatus(*status),
            NetworkEvent::OpenDialog(text, entity_id) => NetworkEventModel::OpenDialog(
                text@,
                *entity_id,
            ),
            NetworkEvent::AddNextButton => NetworkEventModel::AddNextButton,
            NetworkEvent::AddCloseButton => NetworkEventModel::AddCloseButton,
            NetworkEvent::AddChoiceButtons(choices) => NetworkEventModel::AddChoiceButtons(
                crate::network::text::views(choices@),
            ),
            NetworkEvent::AddQuestEffect(packet) => NetworkEventModel::AddQuestEffect(*packet),
            NetworkEvent::RemoveQuestEffect(entity_id) => NetworkEventModel::RemoveQuestEffect(
                *entity_id,
            ),
            NetworkEvent::Inventory(items) => NetworkEventModel::Inventory(items@),
            NetworkEvent::AddIventoryItem(index, item_id, equip, equipped) => {
                NetworkEventModel::AddIventoryItem(*index, *item_id, *equip, *equipped)
            },
            NetworkEvent::SkillTree(skills) => NetworkEventModel::SkillTree(models(skills@)),
            NetworkEvent::UpdateEquippedPosition { index, equipped_position } => {
                NetworkEventModel::UpdateEquippedPosition {
                    index: *index,
                    equipped_position: *equipped_position,
                }
            },
            NetworkEvent::ChangeJob(account_id, job) => NetworkEventModel::ChangeJob(
                *account_id,
                *job,
            ),
            NetworkEvent::SetPlayerPosition(position) => NetworkEventModel::SetPlayerPosition(
                *position,
            ),
            NetworkEvent::Disconnect => NetworkEventModel::Disconnect,
            NetworkEvent::FriendRequest(friend) => NetworkEventModel::FriendRequest(
                friend.model(),
            ),
            NetworkEvent::VisualEffect(path, entity_id) => NetworkEventModel::VisualEffect(
                path@,
                *entity_id,
            ),
            NetworkEvent::AddSkillUnit(entity_id, unit_id, position) => {
                NetworkEventModel::AddSkillUnit(*entity_id, *unit_id, *position)
            },
            NetworkEvent::RemoveSkillUnit(entity_id) => NetworkEventModel::RemoveSkillUnit(
                *entity_id,
            ),
        }
    }
}

/// What a list of events stands for.
pub open spec fn event_models(events: Seq<NetworkEvent>) -> Seq<NetworkEventModel> {
    Seq::new(events.len(), |i: int| events[i].model())
}

/// The bytes from a frame on whose header no packet type has.
#[derive(Clone, Debug)]
pub struct UnknownPacket {
    pub bytes: Vec<u8>,
}

impl UnknownPacket {
    pub fn new(bytes: Vec<u8>) -> (packet: Self)
        ensures
            packet.bytes@ == bytes@,
    {
        UnknownPacket { bytes }
    }

    /// The header that the bytes begin with, and what follows it, where more
    /// than two bytes are there. All the bytes without a header where not.
    pub fn parts(&self) -> (parts: (Option<u16>, &[u8]))
        ensures
            self.bytes@.len() > 2 ==> parts.0 == Some(u16_at(self.bytes@, 0)) && parts.1@
                == self.bytes@.skip(2),
            self.bytes@.len() <= 2 ==> parts.0 is None && parts.1@ == self.bytes@,
    {
        let bytes = self.bytes.as_slice();
        if bytes.len() > 2 {
            let signature = bytes[0] as u16 + 0x100 * (bytes[1] as u16);
            let data = slice_subrange(bytes, 2, bytes.len());
            assert(data@ =~= self.bytes@.skip(2));
            (Some(signature), data)
        } else {
            (None, bytes)
        }
    }
}

} // verus!
