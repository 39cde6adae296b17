//! What the player asks of the map server: each request is one frame.
//!
//! A request that has no wire form gives no frame: a text whose bytes are too
//! many for its field, a position or an index that is too far out.

use cgmath::Vector2;
use vstd::prelude::*;
use vstd::string::StringExecFns;
use vstd::utf8::encode_utf8;

use crate::loaders::convertable::ByteConvertable;
use crate::network::chat::GlobalMessagePacket;
use crate::network::dialog::{
    ChooseDialogOptionPacket, CloseDialogPacket, NextDialogPacket, StartDialogPacket,
};
use crate::network::entity::RequestDetailsPacket;
use crate::network::friend::{
    AddFriendPacket, FriendRequestResponse, FriendRequestResponsePacket, RemoveFriendPacket,
};
use crate::network::ids::{AccountId, CharacterId, EntityId, ItemIndex, SkillId, SkillLevel};
use crate::network::inventory::{EquipPosition, RequestEquipItemPacket, RequestUnequipItemPacket};
use crate::network::map::{MapLoadedPacket, RequestPlayerMovePacket, RequestWarpToMapPacket};
use crate::network::packet::{frame_encoding, Packet};
use crate::network::position::WorldPosition;
use crate::network::session::{fits, NetworkingSystem};
use crate::network::skill::{
    Action, EndUseSkillPacket, RequestActionPacket, StartUseSkillPacket, UseSkillAtIdPacket,
    UseSkillOnGroundPacket,
};
use crate::network::text::byte_length;

verus! {

/// The message of the player as the chat shows it: the name of the player, a
/// colon between two blanks, and the message.
pub open spec fn chat_line(player_name: Seq<char>, message: Seq<char>) -> Seq<char> {
    player_name + " : "@ + message
}

impl NetworkingSystem {
    /// Asks to walk to a position, which has to lie within the 1024 by 1024
    /// cells that a position on the wire can name.
    pub fn request_player_move(&self, destination: Vector2<usize>) -> (request: Option<Vec<u8>>)
        ensures
            request is Some <==> destination.x < 1024 && destination.y < 1024,
            request matches Some(frame) ==> frame@ == frame_encoding::<RequestPlayerMovePacket>(
                RequestPlayerMovePacket::made(
                    WorldPosition { x: destination.x, y: destination.y },
                ),
            ),
    {
        if destination.x >= 1024 || destination.y >= 1024 {
            return None;
        }
        let position = WorldPosition::new(destination.x, destination.y);
        Some(RequestPlayerMovePacket::new(position).to_bytes())
    }

    /// Asks to be moved to a position on a map. Of each coordinate the lower
    /// 16 bits are sent. The name of the map has to fit its field of 16 bytes.
    pub fn request_warp_to_map(&self, map_name: String, position: Vector2<usize>) -> (request:
        Option<Vec<u8>>)
        ensures
            request is Some <==> fits(map_name@, 16),
            request matches Some(frame) ==> frame@ == frame_encoding::<RequestWarpToMapPacket>(
                RequestWarpToMapPacket::made(
                    map_name@,
                    Vector2 {
                        x: (position.x % 0x1_0000) as u16,
                        y: (position.y % 0x1_0000) as u16,
                    },
                ),
            ),
    {
        if byte_length(map_name.as_str()) > 16 {
            return None;
        }
        let position = Vector2 {
            x: (position.x % 0x1_0000) as u16,
            y: (position.y % 0x1_0000) as u16,
        };
        Some(RequestWarpToMapPacket::new(map_name, position).to_bytes())
    }

    /// Tells that the client has loaded the map.
    pub fn map_loaded(&self) -> (request: Vec<u8>)
        ensures
            request@ == frame_encoding::<MapLoadedPacket>(MapLoadedPacket::made()),
    {
        MapLoadedPacket::new().to_bytes()
    }

    /// Asks for the details of an entity.
    pub fn request_entity_details(&self, entity_id: EntityId) -> (request: Vec<u8>)
        ensures
            request@ == frame_encoding::<RequestDetailsPacket>(
                RequestDetailsPacket::made(entity_id),
            ),
    {
        RequestDetailsPacket::new(entity_id).to_bytes()
    }

    /// Asks to attack an entity.
    pub fn request_player_attack(&self, entity_id: EntityId) -> (request: Vec<u8>)
        ensures
            request@ == frame_encoding::<RequestActionPacket>(
                RequestActionPacket::made(entity_id, Action::Attack),
            ),
    {
        RequestActionPacket::new(entity_id, Action::Attack).to_bytes()
    }

    /// Says something in the chat: the line that the chat shows, with the name
    /// of the player before the message. The frame holds the bytes of the line
    /// and a zero byte behind them. The line has to be short enough for the
    /// length of its frame to fit two bytes.
    pub fn send_message(&self, message: String) -> (request: Option<Vec<u8>>)
        ensures
            request is Some <==> encode_utf8(
                chat_line(self.model().player_name, message@),
            ).len() + 5 <= u16::MAX,
            request matches Some(frame) ==> frame@ == frame_encoding::<GlobalMessagePacket>(
                GlobalMessagePacket::made(
                    (encode_utf8(chat_line(self.model().player_name, message@)).len() + 5) as u16,
                    chat_line(self.model().player_name, message@),
                ),
            ),
    {
        let mut complete_message = self.player_name().clone();
        complete_message.append(" : ");
        complete_message.append(message.as_str());
        let length = byte_length(complete_message.as_str());
        if length > 0xffff - 5 {
            return None;
        }
        let packet = GlobalMessagePacket::new(length as u16 + 5, complete_message);
        proof {
            reveal(<GlobalMessagePacket as Packet>::payload_encoding);
        }
        Some(packet.to_bytes())
    }

    /// Begins a dialog with a non-player character.
    pub fn start_dialog(&self, npc_id: EntityId) -> (request: Vec<u8>)
        ensures
            request@ == frame_encoding::<StartDialogPacket>(StartDialogPacket::made(npc_id)),
    {
        StartDialogPacket::new(npc_id).to_bytes()
    }

    /// Asks for the next part of a dialog.
    pub fn next_dialog(&self, npc_id: EntityId) -> (request: Vec<u8>)
        ensures
            request@ == frame_encoding::<NextDialogPacket>(NextDialogPacket::made(npc_id)),
    {
        NextDialogPacket::new(npc_id).to_bytes()
    }

    /// Ends a dialog.
    pub fn close_dialog(&self, npc_id: EntityId) -> (request: Vec<u8>)
        ensures
            request@ == frame_encoding::<CloseDialogPacket>(CloseDialogPacket::made(npc_id)),
    {
        CloseDialogPacket::new(npc_id).to_bytes()
    }

    /// Chooses an option of a dialog.
    pub fn choose_dialog_option(&self, npc_id: EntityId, option: i8) -> (request: Vec<u8>)
        ensures
            request@ == frame_encoding::<ChooseDialogOptionPacket>(
                ChooseDialogOptionPacket::made(npc_id, option),
            ),
    {
        ChooseDialogOptionPacket::new(npc_id, option).to_bytes()
    }

    /// Asks to put on an item. The index of the item has to be one that the
    /// wire can name: at most 65533.
    pub fn request_item_equip(
        &self,
        item_index: ItemIndex,
        equip_position: EquipPosition,
    ) -> (request:
        Option<Vec<u8>>)
        ensures
            request is Some <==> item_index.index() <= 65533,
            request matches Some(frame) ==> frame@ == frame_encoding::<RequestEquipItemPacket>(
                RequestEquipItemPacket::made(item_index, equip_position),
            ),
    {
        if item_index.value() > 65533 {
            return None;
        }
        Some(RequestEquipItemPacket::new(item_index, equip_position).to_bytes())
    }

    /// Asks to take off an item. The index of the item has to be one that the
    /// wire can name: at most 65533.
    pub fn request_item_unequip(&self, item_index: ItemIndex) -> (request: Option<Vec<u8>>)
        ensures
            request is Some <==> item_index.index() <= 65533,
            request matches Some(frame) ==> frame@ == frame_encoding::<RequestUnequipItemPacket>(
                RequestUnequipItemPacket::made(item_index),
            ),
    {
        if item_index.value() > 65533 {
            return None;
        }
        Some(RequestUnequipItemPacket::new(item_index).to_bytes())
    }

    /// Asks to use a skill on an entity.
    pub fn cast_skill(
        &self,
        skill_id: SkillId,
        skill_level: SkillLevel,
        entity_id: EntityId,
    ) -> (request:
        Vec<u8>)
        ensures
            request@ == frame_encoding::<UseSkillAtIdPacket>(
                UseSkillAtIdPacket::made(skill_level, skill_id, entity_id),
            ),
    {
        UseSkillAtIdPacket::new(skill_level, skill_id, entity_id).to_bytes()
    }

    /// Asks to use a skill on a place.
    pub fn cast_ground_skill(
        &self,
        skill_id: SkillId,
        skill_level: SkillLevel,
        target_position: Vector2<u16>,
    ) -> (request: Vec<u8>)
        ensures
            request@ == frame_encoding::<UseSkillOnGroundPacket>(
                UseSkillOnGroundPacket::made(skill_level, skill_id, target_position),
            ),
    {
        UseSkillOnGroundPacket::new(skill_level, skill_id, target_position).to_bytes()
    }

    /// Asks to begin a skill that lasts.
    pub fn cast_channeling_skill(
        &self,
        skill_id: SkillId,
        skill_level: SkillLevel,
        entity_id: EntityId,
    ) -> (request: Vec<u8>)
        ensures
            request@ == frame_encoding::<StartUseSkillPacket>(
                StartUseSkillPacket::made(skill_id, skill_level, entity_id),
            ),
    {
        StartUseSkillPacket::new(skill_id, skill_level, entity_id).to_bytes()
    }

    /// Asks to end a skill that lasts.
    pub fn stop_channeling_skill(&self, skill_id: SkillId) -> (request: Vec<u8>)
        ensures
            request@ == frame_encoding::<EndUseSkillPacket>(EndUseSkillPacket::made(skill_id)),
    {
        EndUseSkillPacket::new(skill_id).to_bytes()
    }

    /// Asks a player to become a friend. The name has to fit its field of 24
    /// bytes.
    pub fn add_friend(&self, name: String) -> (request: Option<Vec<u8>>)
        ensures
            request is Some <==> fits(name@, 24),
            request matches Some(frame) ==> frame@ == frame_encoding::<AddFriendPacket>(
                AddFriendPacket::made(name@),
            ),
    {
        if byte_length(name.as_str()) > 24 {
            return None;
        }
        Some(AddFriendPacket::new(name).to_bytes())
    }

    /// Asks to end a friendship.
    pub fn remove_friend(&self, account_id: AccountId, character_id: CharacterId) -> (request: Vec<
        u8,
    >)
        ensures
            request@ == frame_encoding::<RemoveFriendPacket>(
                RemoveFriendPacket::made(account_id, character_id),
            ),
    {
        RemoveFriendPacket::new(account_id, character_id).to_bytes()
    }

    /// Says no to a player who wants to become a friend.
    pub fn reject_friend_request(
        &self,
        account_id: AccountId,
        character_id: CharacterId,
    ) -> (request:
        Vec<u8>)
        ensures
            request@ == frame_encoding::<FriendRequestResponsePacket>(
                FriendRequestResponsePacket::made(
                    account_id,
                    character_id,
                    FriendRequestResponse::Reject,
                ),
            ),
    {
        FriendRequestResponsePacket::new(
            account_id,
            character_id,
            FriendRequestResponse::Reject,
        ).to_bytes()
    }

    /// Says yes to a player who wants to become a friend.
    pub fn accept_friend_request(
        &self,
        account_id: AccountId,
        character_id: CharacterId,
    ) -> (request:
        Vec<u8>)
        ensures
            request@ == frame_encoding::<FriendRequestResponsePacket>(
                FriendRequestResponsePacket::made(
                    account_id,
                    character_id,
                    FriendRequestResponse::Accept,
                ),
            ),
    {
        FriendRequestResponsePacket::new(
            account_id,
            character_id,
            FriendRequestResponse::Accept,
        ).to_bytes()
    }
}

} // verus!
