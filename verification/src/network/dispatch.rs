//! The dispatcher: from a buffer of frames, one behind the other, to the
//! events that they bring.
//!
//! The header of a frame decides its packet type. A frame whose header no
//! packet type has ends the dispatch: the frames have no boundaries but those
//! that their types give them. So does a frame that is not all there yet, and
//! one that does not decode.

use cgmath::Vector2;
use vstd::prelude::*;
use vstd::slice::{slice_subrange, slice_to_vec};
use vstd::string::StringExecFns;

use crate::loaders::convertable::{models, ByteConvertable};
use crate::loaders::stream::{ByteStream, ConversionError};
use crate::loaders::wire::u16_at;
use crate::network::chat::{
    Broadcast2MessagePacket, Broadcast2MessagePacketModel, BroadcastMessagePacket,
    BroadcastMessagePacketModel, EntityMessagePacket, EntityMessagePacketModel,
    OverheadMessagePacket, OverheadMessagePacketModel, ServerMessagePacket,
    ServerMessagePacketModel,
};
use crate::network::dialog::{
    CloseButtonPacket, DialogMenuPacket, DialogMenuPacketModel, NextButtonPacket, NpcDialogPacket,
    NpcDialogPacketModel,
};
use crate::network::entity::{
    DisplayEmotionPacket, DisplaySpecialEffectPacket, EntityAppeared2Packet,
    EntityAppeared2PacketModel, EntityAppearedPacket, EntityAppearedPacketModel,
    EntityDisappearedPacket, EntityMovePacket, EntityStopMovePacket, MovingEntityAppearedPacket,
    MovingEntityAppearedPacketModel, RequestEntityDetailsSuccessPacket,
    RequestEntityDetailsSuccessPacketModel, RequestPlayerDetailsSuccessPacket,
    RequestPlayerDetailsSuccessPacketModel, SpriteChangePacket, StateChangePacket,
    UpdateEntityHealthPointsPacket, VisualEffect, VisualEffectPacket,
};
use crate::network::event::{
    event_models, ChatMessage, Color, EntityData, InventoryItem, NetworkEvent, NetworkEventModel,
    UnknownPacket,
};
use crate::network::friend::{
    ClanInfoPacket, ClanInfoPacketModel, ClanOnlineCountPacket, Friend, FriendListPacket,
    FriendListPacketModel, FriendModel, FriendOnlineStatusPacket, FriendOnlineStatusPacketModel,
    FriendRequestPacket, FriendRequestPacketModel, FriendRequestResult, FriendRequestResultPacket,
    FriendRequestResultPacketModel, NotifyFriendRemovedPacket, PartyInvitePacket,
    PartyInvitePacketModel, ReputationPacket, ReputationPacketModel,
};
use crate::network::ids::{AccountId, CharacterId, EntityId};
use crate::network::inventory::{
    EquipPosition, EquippableItemInformation, EquippableItemInformationModel,
    EquippableItemListPacket, EquippableSwitchItemListPacket, EquippableSwitchItemListPacketModel,
    InventoyEndPacket, InventoyStartPacket, ItemPickupPacket, ItemPickupPacketModel,
    RegularItemInformation, RegularItemListPacket, RemoveItemFromInventoryPacket,
    RequestEquipItemStatus, RequestEquipItemStatusPacket, RequestUnequipItemStatus,
    RequestUnequipItemStatusPacket,
};
use crate::network::map::{
    ChangeMapCellPacket, ChangeMapCellPacketModel, ChangeMapPacket, ChangeMapPacketModel,
    DisconnectResponsePacket, DisconnectResponseStatus, DisplayImagePacket, DisplayImagePacketModel,
    MapServerLoginSuccessPacket, MapTypePacket, MarkMinimapPositionPacket, NavigateToMonsterPacket,
    NavigateToMonsterPacketModel, NewMailStatusPacket, Packet180b, Packet8302, PlayerMovePacket,
    RestartResponsePacket, RestartResponseStatus, ServerTickPacket, UpdateConfigurationPacket,
    UpdatePartyInvitationStatePacket, UpdateShowEquipPacket,
};
use crate::network::packet::{frame_decoding, frame_encoding, lemma_frame_round_trip, Packet};
use crate::network::quest::{
    HuntingQuestNotificationPacket, HuntingQuestNotificationPacketModel,
    HuntingQuestUpdateObjectivePacket, HuntingQuestUpdateObjectivePacketModel, QuestEffect,
    QuestEffectPacket, QuestListPacket, QuestListPacketModel, QuestNotificationPacket1,
    QuestNotificationPacket1Model, QuestRemovedPacket,
};
use crate::network::skill::{
    DamagePacket, DisplayPlayerHealEffect, DisplaySkillCooldownPacket,
    DisplaySkillEffectAndDamagePacket, DisplaySkillEffectNoDamagePacket, NotifyGroundSkillPacket,
    NotifySkillUnitPacket, RequestPlayerAttackFailedPacket, SkillUnitDisappearPacket,
    ToUseSkillSuccessPacket, UpdateHotkeysPacket, UpdateHotkeysPacketModel, UpdateSkillTreePacket,
    UpdateSkillTreePacketModel, UseSkillSuccessPacket,
};
use crate::network::status::{
    AchievementListPacket, AchievementListPacketModel, AchievementUpdatePacket,
    CriticalWeightUpdatePacket, DisplayGainedExperiencePacket, InitialStatusPacket,
    StatusChangePacket, StatusChangeSequencePacket, UpdateAttackRangePacket, UpdateStatusPacket,
    UpdateStatusPacket1, UpdateStatusPacket2, UpdateStatusPacket3,
};
use crate::network::text::{pieces, remove_all, split_pieces, without};

verus! {

/// The file that shows a visual effect.
pub open spec fn effect_path(effect: VisualEffect) -> Seq<char> {
    match effect {
        VisualEffect::BaseLevelUp => "angel.str"@,
        VisualEffect::JobLevelUp => "joblvup.str"@,
        VisualEffect::RefineFailure => "bs_refinefailed.str"@,
        VisualEffect::RefineSuccess => "bs_refinesuccess.str"@,
        VisualEffect::GameOver => "help_angel\\help_angel\\help_angel.str"@,
        VisualEffect::PharmacySuccess => "p_success.str"@,
        VisualEffect::PharmacyFailure => "p_failed.str"@,
        VisualEffect::BaseLevelUpSuperNovice => "help_angel\\help_angel\\help_angel.str"@,
        VisualEffect::JobLevelUpSuperNovice => "help_angel\\help_angel\\help_angel.str"@,
        VisualEffect::BaseLevelUpTaekwon => "help_angel\\help_angel\\help_angel.str"@,
    }
}

/// The file that shows a visual effect.
pub fn path_of_effect(effect: VisualEffect) -> (path: &'static str)
    ensures
        path@ == effect_path(effect),
{
    match effect {
        VisualEffect::BaseLevelUp => "angel.str",
        VisualEffect::JobLevelUp => "joblvup.str",
        VisualEffect::RefineFailure => "bs_refinefailed.str",
        VisualEffect::RefineSuccess => "bs_refinesuccess.str",
        VisualEffect::GameOver => "help_angel\\help_angel\\help_angel.str",
        VisualEffect::PharmacySuccess => "p_success.str",
        VisualEffect::PharmacyFailure => "p_failed.str",
        VisualEffect::BaseLevelUpSuperNovice => "help_angel\\help_angel\\help_angel.str",
        VisualEffect::JobLevelUpSuperNovice => "help_angel\\help_angel\\help_angel.str",
        VisualEffect::BaseLevelUpTaekwon => "help_angel\\help_angel\\help_angel.str",
    }
}

/// Decodes the payload of a packet that brings no events.
fn without_events<P: Packet>(byte_stream: &mut ByteStream) -> (result: Result<
    Vec<NetworkEvent>,
    ConversionError,
>)
    requires
        old(byte_stream).offset() >= 2,
    ensures
        final(byte_stream).data() == old(byte_stream).data(),
        final(byte_stream).version() == old(byte_stream).version(),
        match P::payload_decoding(old(byte_stream).data(), old(byte_stream).offset() as int) {
            Ok((_, length)) => {
                &&& result matches Ok(list)
                &&& event_models(list@) == Seq::<NetworkEventModel>::empty()
                &&& final(byte_stream).offset() == old(byte_stream).offset() + length
            },
            Err(error) => {
                &&& result matches Err(failure)
                &&& failure == error
                &&& final(byte_stream).offset() == old(byte_stream).offset()
            },
        },
{
    let _ = P::payload_from_bytes(byte_stream)?;
    let events: Vec<NetworkEvent> = Vec::new();
    assert(event_models(events@) =~= Seq::<NetworkEventModel>::empty());
    Ok(events)
}

/// The events that a [`BroadcastMessagePacket`] brings.
pub open spec fn broadcast_message_events(packet: BroadcastMessagePacketModel) -> Seq<
    NetworkEventModel,
> {
    seq![NetworkEventModel::ChatMessage(packet.message, Color::of(220, 200, 30))]
}

/// The events that a [`Broadcast2MessagePacket`] brings.
pub open spec fn broadcast2_message_events(packet: Broadcast2MessagePacketModel) -> Seq<
    NetworkEventModel,
> {
    seq![
        NetworkEventModel::ChatMessage(
            packet.message,
            Color::of(packet.font_color.red, packet.font_color.green, packet.font_color.blue),
        ),
    ]
}

/// The events that a [`OverheadMessagePacket`] brings.
pub open spec fn overhead_message_events(packet: OverheadMessagePacketModel) -> Seq<
    NetworkEventModel,
> {
    seq![NetworkEventModel::ChatMessage(packet.message, Color::of(230, 230, 230))]
}

/// The events that a [`ServerMessagePacket`] brings.
pub open spec fn server_message_events(packet: ServerMessagePacketModel) -> Seq<NetworkEventModel> {
    seq![NetworkEventModel::ChatMessage(packet.message, Color::of(255, 255, 255))]
}

/// The events that a [`EntityMessagePacket`] brings.
pub open spec fn entity_message_events(packet: EntityMessagePacketModel) -> Seq<NetworkEventModel> {
    seq![
        NetworkEventModel::ChatMessage(
            packet.message,
            Color::of(packet.color.red, packet.color.green, packet.color.blue),
        ),
    ]
}

/// The events that a [`EntityMovePacket`] brings.
pub open spec fn entity_move_events(packet: EntityMovePacket) -> Seq<NetworkEventModel> {
    seq![
        NetworkEventModel::EntityMove(
            packet.entity_id,
            Vector2 { x: packet.from_to.x1,
            y: packet.from_to.y1 },
            Vector2 { x: packet.from_to.x2,
            y: packet.from_to.y2 },
            packet.timestamp,
        ),
    ]
}

/// The events that a [`EntityAppearedPacket`] brings.
pub open spec fn entity_appeared_events(packet: EntityAppearedPacketModel) -> Seq<
    NetworkEventModel,
> {
    seq![NetworkEventModel::AddEntity(EntityData::of_appeared(packet))]
}

/// The events that a [`EntityAppeared2Packet`] brings.
pub open spec fn entity_appeared2_events(packet: EntityAppeared2PacketModel) -> Seq<
    NetworkEventModel,
> {
    seq![NetworkEventModel::AddEntity(EntityData::of_appeared2(packet))]
}

/// The events that a [`MovingEntityAppearedPacket`] brings.
pub open spec fn moving_entity_appeared_events(packet: MovingEntityAppearedPacketModel) -> Seq<
    NetworkEventModel,
> {
    seq![NetworkEventModel::AddEntity(EntityData::of_moving(packet))]
}

/// The events that a [`EntityDisappearedPacket`] brings.
pub open spec fn entity_disappeared_events(packet: EntityDisappearedPacket) -> Seq<
    NetworkEventModel,
> {
    seq![NetworkEventModel::RemoveEntity(packet.entity_id)]
}

/// The events that a [`SpriteChangePacket`] brings.
pub open spec fn sprite_change_events(packet: SpriteChangePacket) -> Seq<NetworkEventModel> {
    if packet.sprite_type == 0 {
        seq![NetworkEventModel::ChangeJob(packet.account_id, packet.value)]
    } else {
        Seq::empty()
    }
}

/// The events that a [`VisualEffectPacket`] brings.
pub open spec fn visual_effect_events(packet: VisualEffectPacket) -> Seq<NetworkEventModel> {
    seq![NetworkEventModel::VisualEffect(effect_path(packet.effect), packet.entity_id)]
}

/// The events that a [`RequestPlayerDetailsSuccessPacket`] brings.
pub open spec fn request_player_details_success_events(
    packet: RequestPlayerDetailsSuccessPacketModel,
) -> Seq<
    NetworkEventModel,
> {
    seq![NetworkEventModel::UpdateEntityDetails(EntityId(packet.character_id.0), packet.name)]
}

/// The events that a [`RequestEntityDetailsSuccessPacket`] brings.
pub open spec fn request_entity_details_success_events(
    packet: RequestEntityDetailsSuccessPacketModel,
) -> Seq<
    NetworkEventModel,
> {
    seq![NetworkEventModel::UpdateEntityDetails(packet.entity_id, packet.name)]
}

/// The events that a [`UpdateEntityHealthPointsPacket`] brings.
pub open spec fn update_entity_health_points_events(packet: UpdateEntityHealthPointsPacket) -> Seq<
    NetworkEventModel,
> {
    seq![
        NetworkEventModel::UpdateEntityHealth(
            packet.entity_id,
            packet.health_points as usize,
            packet.maximum_health_points as usize,
        ),
    ]
}

/// The events that a [`UpdateStatusPacket`] brings.
pub open spec fn update_status_events(packet: UpdateStatusPacket) -> Seq<NetworkEventModel> {
    seq![NetworkEventModel::UpdateStatus(packet.status_type)]
}

/// The events that a [`UpdateStatusPacket1`] brings.
pub open spec fn update_status_packet1_events(packet: UpdateStatusPacket1) -> Seq<
    NetworkEventModel,
> {
    seq![NetworkEventModel::UpdateStatus(packet.status_type)]
}

/// The events that a [`UpdateStatusPacket2`] brings.
pub open spec fn update_status_packet2_events(packet: UpdateStatusPacket2) -> Seq<
    NetworkEventModel,
> {
    seq![NetworkEventModel::UpdateStatus(packet.status_type)]
}

/// The events that a [`UpdateStatusPacket3`] brings.
pub open spec fn update_status_packet3_events(packet: UpdateStatusPacket3) -> Seq<
    NetworkEventModel,
> {
    seq![NetworkEventModel::UpdateStatus(packet.status_type)]
}

/// The events that a [`PlayerMovePacket`] brings.
pub open spec fn player_move_events(packet: PlayerMovePacket) -> Seq<NetworkEventModel> {
    seq![
        NetworkEventModel::PlayerMove(
            Vector2 { x: packet.from_to.x1,
            y: packet.from_to.y1 },
            Vector2 { x: packet.from_to.x2,
            y: packet.from_to.y2 },
            packet.timestamp,
        ),
    ]
}

/// The events that a [`ChangeMapPacket`] brings.
pub open spec fn change_map_events(packet: ChangeMapPacketModel) -> Seq<NetworkEventModel> {
    seq![
        NetworkEventModel::ChangeMap(
            without(packet.map_name, ".gat"@),
            Vector2 { x: packet.position.x as usize,
            y: packet.position.y as usize },
        ),
    ]
}

/// The events that a [`ServerTickPacket`] brings.
pub open spec fn server_tick_events(packet: ServerTickPacket) -> Seq<NetworkEventModel> {
    seq![NetworkEventModel::UpdateClientTick(packet.client_tick)]
}

/// The events that a [`MapServerLoginSuccessPacket`] brings.
pub open spec fn map_server_login_success_events(packet: MapServerLoginSuccessPacket) -> Seq<
    NetworkEventModel,
> {
    seq![
        NetworkEventModel::UpdateClientTick(packet.client_tick),
        NetworkEventModel::SetPlayerPosition(
            Vector2 { x: packet.position.x, y: packet.position.y },
        ),
    ]
}

/// The events that a [`RestartResponsePacket`] brings.
pub open spec fn restart_response_events(packet: RestartResponsePacket) -> Seq<NetworkEventModel> {
    if packet.result == RestartResponseStatus::Okay {
        seq![NetworkEventModel::Disconnect]
    } else {
        seq![NetworkEventModel::ChatMessage("Failed to log out."@, Color::of(255, 100, 100))]
    }
}

/// The events that a [`DisconnectResponsePacket`] brings.
pub open spec fn disconnect_response_events(packet: DisconnectResponsePacket) -> Seq<
    NetworkEventModel,
> {
    if packet.result == DisconnectResponseStatus::Okay {
        seq![NetworkEventModel::Disconnect]
    } else {
        seq![
            NetworkEventModel::ChatMessage(
                "Please wait 10 seconds before trying to log out."@,
                Color::of(255, 100, 100),
            ),
        ]
    }
}

/// The events that a [`ItemPickupPacket`] brings.
pub open spec fn item_pickup_events(packet: ItemPickupPacketModel) -> Seq<NetworkEventModel> {
    seq![
        NetworkEventModel::AddIventoryItem(
            packet.index,
            packet.item_id,
            packet.equip_position,
            EquipPosition::NoPosition,
        ),
    ]
}

/// The events that a [`RequestEquipItemStatusPacket`] brings.
pub open spec fn request_equip_item_status_events(packet: RequestEquipItemStatusPacket) -> Seq<
    NetworkEventModel,
> {
    if packet.result == RequestEquipItemStatus::Success {
        seq![
            NetworkEventModel::UpdateEquippedPosition { index: packet.inventory_index,
            equipped_position: packet.equipped_position },
        ]
    } else {
        Seq::empty()
    }
}

/// The events that a [`RequestUnequipItemStatusPacket`] brings.
pub open spec fn request_unequip_item_status_events(packet: RequestUnequipItemStatusPacket) -> Seq<
    NetworkEventModel,
> {
    if packet.result == RequestUnequipItemStatus::Success {
        seq![
            NetworkEventModel::UpdateEquippedPosition { index: packet.inventory_index,
            equipped_position: EquipPosition::NoPosition },
        ]
    } else {
        Seq::empty()
    }
}

/// The events that a [`UpdateSkillTreePacket`] brings.
pub open spec fn update_skill_tree_events(packet: UpdateSkillTreePacketModel) -> Seq<
    NetworkEventModel,
> {
    seq![NetworkEventModel::SkillTree(packet.skill_information)]
}

/// The events that a [`DisplaySkillEffectNoDamagePacket`] brings.
pub open spec fn display_skill_effect_no_damage_events(
    packet: DisplaySkillEffectNoDamagePacket,
) -> Seq<
    NetworkEventModel,
> {
    seq![NetworkEventModel::HealEffect(packet.destination_entity_id, packet.heal_amount as usize)]
}

/// The events that a [`DamagePacket`] brings.
pub open spec fn damage_events(packet: DamagePacket) -> Seq<NetworkEventModel> {
    seq![
        NetworkEventModel::DamageEffect(
            packet.destination_entity_id,
            packet.damage_amount as usize,
        ),
    ]
}

/// The events that a [`NotifySkillUnitPacket`] brings.
pub open spec fn notify_skill_unit_events(packet: NotifySkillUnitPacket) -> Seq<NetworkEventModel> {
    seq![
        NetworkEventModel::AddSkillUnit(
            packet.entity_id,
            packet.unit_id,
            Vector2 { x: packet.position.x as usize,
            y: packet.position.y as usize },
        ),
    ]
}

/// The events that a [`SkillUnitDisappearPacket`] brings.
pub open spec fn skill_unit_disappear_events(packet: SkillUnitDisappearPacket) -> Seq<
    NetworkEventModel,
> {
    seq![NetworkEventModel::RemoveSkillUnit(packet.entity_id)]
}

/// The events that a [`QuestEffectPacket`] brings.
pub open spec fn quest_effect_events(packet: QuestEffectPacket) -> Seq<NetworkEventModel> {
    if packet.effect == QuestEffect::NoEffect {
        seq![NetworkEventModel::RemoveQuestEffect(packet.entity_id)]
    } else {
        seq![NetworkEventModel::AddQuestEffect(packet)]
    }
}

/// The events that a [`NextButtonPacket`] brings.
pub open spec fn next_button_events(packet: NextButtonPacket) -> Seq<NetworkEventModel> {
    seq![NetworkEventModel::AddNextButton]
}

/// The events that a [`CloseButtonPacket`] brings.
pub open spec fn close_button_events(packet: CloseButtonPacket) -> Seq<NetworkEventModel> {
    seq![NetworkEventModel::AddCloseButton]
}

/// The events that a [`DialogMenuPacket`] brings.
pub open spec fn dialog_menu_events(packet: DialogMenuPacketModel) -> Seq<NetworkEventModel> {
    seq![NetworkEventModel::AddChoiceButtons(pieces(packet.message, ':', Seq::empty()))]
}

/// The events that a [`NpcDialogPacket`] brings.
pub open spec fn npc_dialog_events(packet: NpcDialogPacketModel) -> Seq<NetworkEventModel> {
    seq![NetworkEventModel::OpenDialog(packet.text, packet.npc_id)]
}

/// The events that a [`FriendRequestPacket`] brings.
pub open spec fn friend_request_events(packet: FriendRequestPacketModel) -> Seq<NetworkEventModel> {
    seq![NetworkEventModel::FriendRequest(packet.friend)]
}

/// What a frame about the chat brings: the events, and the length of the payload
/// that begins at `at`. Nothing where no packet type of the group has the
/// header.
#[verifier::opaque]
pub open spec fn chat_events_at(header: u16, data: Seq<u8>, at: int) -> Option<
    Result<(Seq<NetworkEventModel>, nat), ConversionError>,
> {
    if header == BroadcastMessagePacket::packet_header() {
        Some(
            match BroadcastMessagePacket::payload_decoding(data, at) {
                Ok((packet, length)) => Ok(
                    (
                        broadcast_message_events(packet),
                        length,
                    ),
                ),
                Err(error) => Err(error),
            },
        )
    } else if header == Broadcast2MessagePacket::packet_header() {
        Some(
            match Broadcast2MessagePacket::payload_decoding(data, at) {
                Ok((packet, length)) => Ok(
                    (
                        broadcast2_message_events(packet),
                        length,
                    ),
                ),
                Err(error) => Err(error),
            },
        )
    } else if header == OverheadMessagePacket::packet_header() {
        Some(
            match OverheadMessagePacket::payload_decoding(data, at) {
                Ok((packet, length)) => Ok(
                    (
                        overhead_message_events(packet),
                        length,
                    ),
                ),
                Err(error) => Err(error),
            },
        )
    } else if header == ServerMessagePacket::packet_header() {
        Some(
            match ServerMessagePacket::payload_decoding(data, at) {
                Ok((packet, length)) => Ok(
                    (
                        server_message_events(packet),
                        length,
                    ),
                ),
                Err(error) => Err(error),
            },
        )
    } else if header == EntityMessagePacket::packet_header() {
        Some(
            match EntityMessagePacket::payload_decoding(data, at) {
                Ok((packet, length)) => Ok(
                    (
                        entity_message_events(packet),
                        length,
                    ),
                ),
                Err(error) => Err(error),
            },
        )
    } else {
        None
    }
}

/// Decodes the payload of a [`BroadcastMessagePacket`] at the cursor and converts the packet to
/// the events that it brings.
fn broadcast_message_events_from(byte_stream: &mut ByteStream) -> (result: Result<
    Vec<NetworkEvent>,
    ConversionError,
>)
    requires
        old(byte_stream).offset() >= 2,
    ensures
        final(byte_stream).data() == old(byte_stream).data(),
        final(byte_stream).version() == old(byte_stream).version(),
        match BroadcastMessagePacket::payload_decoding(
            old(byte_stream).data(),
            old(byte_stream).offset() as int,
        ) {
            Ok((packet, length)) => {
                &&& result matches Ok(list)
                &&& event_models(list@) == broadcast_message_events(packet)
                &&& final(byte_stream).offset() == old(byte_stream).offset() + length
            },
            Err(error) => {
                &&& result matches Err(failure)
                &&& failure == error
                &&& final(byte_stream).offset() == old(byte_stream).offset()
            },
        },
{
    let packet = BroadcastMessagePacket::payload_from_bytes(byte_stream)?;
    let ghost model = packet.model();
    let mut events: Vec<NetworkEvent> = Vec::new();
    events.push(
        NetworkEvent::ChatMessage(ChatMessage::new(packet.message, Color::rgb(220, 200, 30))),
    );
    assert(event_models(events@) =~= broadcast_message_events(model));
    Ok(events)
}

/// Decodes the payload of a [`Broadcast2MessagePacket`] at the cursor and converts the packet to
/// the events that it brings.
fn broadcast2_message_events_from(byte_stream: &mut ByteStream) -> (result: Result<
    Vec<NetworkEvent>,
    ConversionError,
>)
    requires
        old(byte_stream).offset() >= 2,
    ensures
        final(byte_stream).data() == old(byte_stream).data(),
        final(byte_stream).version() == old(byte_stream).version(),
        match Broadcast2MessagePacket::payload_decoding(
            old(byte_stream).data(),
            old(byte_stream).offset() as int,
        ) {
            Ok((packet, length)) => {
                &&& result matches Ok(list)
                &&& event_models(list@) == broadcast2_message_events(packet)
                &&& final(byte_stream).offset() == old(byte_stream).offset() + length
            },
            Err(error) => {
                &&& result matches Err(failure)
                &&& failure == error
                &&& final(byte_stream).offset() == old(byte_stream).offset()
            },
        },
{
    let packet = Broadcast2MessagePacket::payload_from_bytes(byte_stream)?;
    let ghost model = packet.model();
    let mut events: Vec<NetworkEvent> = Vec::new();
    events.push(
        NetworkEvent::ChatMessage(
            ChatMessage::new(
                packet.message,
                Color::rgb(packet.font_color.red, packet.font_color.green, packet.font_color.blue),
            ),
        ),
    );
    assert(event_models(events@) =~= broadcast2_message_events(model));
    Ok(events)
}

/// Decodes the payload of a [`OverheadMessagePacket`] at the cursor and converts the packet to
/// the events that it brings.
fn overhead_message_events_from(byte_stream: &mut ByteStream) -> (result: Result<
    Vec<NetworkEvent>,
    ConversionError,
>)
    requires
        old(byte_stream).offset() >= 2,
    ensures
        final(byte_stream).data() == old(byte_stream).data(),
        final(byte_stream).version() == old(byte_stream).version(),
        match OverheadMessagePacket::payload_decoding(
            old(byte_stream).data(),
            old(byte_stream).offset() as int,
        ) {
            Ok((packet, length)) => {
                &&& result matches Ok(list)
                &&& event_models(list@) == overhead_message_events(packet)
                &&& final(byte_stream).offset() == old(byte_stream).offset() + length
            },
            Err(error) => {
                &&& result matches Err(failure)
                &&& failure == error
                &&& final(byte_stream).offset() == old(byte_stream).offset()
            },
        },
{
    let packet = OverheadMessagePacket::payload_from_bytes(byte_stream)?;
    let ghost model = packet.model();
    let mut events: Vec<NetworkEvent> = Vec::new();
    events.push(
        NetworkEvent::ChatMessage(ChatMessage::new(packet.message, Color::monochrome(230))),
    );
    assert(event_models(events@) =~= overhead_message_events(model));
    Ok(events)
}

/// Decodes the payload of a [`ServerMessagePacket`] at the cursor and converts the packet to
/// the events that it brings.
fn server_message_events_from(byte_stream: &mut ByteStream) -> (result: Result<
    Vec<NetworkEvent>,
    ConversionError,
>)
    requires
        old(byte_stream).offset() >= 2,
    ensures
        final(byte_stream).data() == old(byte_stream).data(),
        final(byte_stream).version() == old(byte_stream).version(),
        match ServerMessagePacket::payload_decoding(
            old(byte_stream).data(),
            old(byte_stream).offset() as int,
        ) {
            Ok((packet, length)) => {
                &&& result matches Ok(list)
                &&& event_models(list@) == server_message_events(packet)
                &&& final(byte_stream).offset() == old(byte_stream).offset() + length
            },
            Err(error) => {
                &&& result matches Err(failure)
                &&& failure == error
                &&& final(byte_stream).offset() == old(byte_stream).offset()
            },
        },
{
    let packet = ServerMessagePacket::payload_from_bytes(byte_stream)?;
    let ghost model = packet.model();
    let mut events: Vec<NetworkEvent> = Vec::new();
    events.push(
        NetworkEvent::ChatMessage(ChatMessage::new(packet.message, Color::monochrome(255))),
    );
    assert(event_models(events@) =~= server_message_events(model));
    Ok(events)
}

/// Decodes the payload of a [`EntityMessagePacket`] at the cursor and converts the packet to
/// the events that it brings.
fn entity_message_events_from(byte_stream: &mut ByteStream) -> (result: Result<
    Vec<NetworkEvent>,
    ConversionError,
>)
    requires
        old(byte_stream).offset() >= 2,
    ensures
        final(byte_stream).data() == old(byte_stream).data(),
        final(byte_stream).version() == old(byte_stream).version(),
        match EntityMessagePacket::payload_decoding(
            old(byte_stream).data(),
            old(byte_stream).offset() as int,
        ) {
            Ok((packet, length)) => {
                &&& result matches Ok(list)
                &&& event_models(list@) == entity_message_events(packet)
                &&& final(byte_stream).offset() == old(byte_stream).offset() + length
            },
            Err(error) => {
                &&& result matches Err(failure)
                &&& failure == error
                &&& final(byte_stream).offset() == old(byte_stream).offset()
            },
        },
{
    let packet = EntityMessagePacket::payload_from_bytes(byte_stream)?;
    let ghost model = packet.model();
    let mut events: Vec<NetworkEvent> = Vec::new();
    events.push(
        NetworkEvent::ChatMessage(
            ChatMessage::new(
                packet.message,
                Color::rgb(packet.color.red, packet.color.green, packet.color.blue),
            ),
        ),
    );
    assert(event_models(events@) =~= entity_message_events(model));
    Ok(events)
}

/// Decodes the payload of a frame about the chat and converts it to the events
/// that it brings. The cursor stands behind the header.
fn chat_events(header: u16, byte_stream: &mut ByteStream) -> (result: Option<
    Result<Vec<NetworkEvent>, ConversionError>,
>)
    requires
        old(byte_stream).offset() >= 2,
    ensures
        final(byte_stream).data() == old(byte_stream).data(),
        final(byte_stream).version() == old(byte_stream).version(),
        match chat_events_at(header, old(byte_stream).data(), old(byte_stream).offset() as int) {
            Some(Ok((events, length))) => {
                &&& result matches Some(Ok(list))
                &&& event_models(list@) == events
                &&& final(byte_stream).offset() == old(byte_stream).offset() + length
            },
            Some(Err(error)) => {
                &&& result matches Some(Err(failure))
                &&& failure == error
                &&& final(byte_stream).offset() == old(byte_stream).offset()
            },
            None => {
                &&& result is None
                &&& final(byte_stream).offset() == old(byte_stream).offset()
            },
        },
{
    proof {
        reveal(chat_events_at);
    }
    if header == BroadcastMessagePacket::header() {
        Some(broadcast_message_events_from(byte_stream))
    } else if header == Broadcast2MessagePacket::header() {
        Some(broadcast2_message_events_from(byte_stream))
    } else if header == OverheadMessagePacket::header() {
        Some(overhead_message_events_from(byte_stream))
    } else if header == ServerMessagePacket::header() {
        Some(server_message_events_from(byte_stream))
    } else if header == EntityMessagePacket::header() {
        Some(entity_message_events_from(byte_stream))
    } else {
        None
    }
}

/// What a frame about the entities brings: the events, and the length of the payload
/// that begins at `at`. Nothing where no packet type of the group has the
/// header.
#[verifier::opaque]
pub open spec fn entity_events_at(header: u16, data: Seq<u8>, at: int) -> Option<
    Result<(Seq<NetworkEventModel>, nat), ConversionError>,
> {
    if header == DisplayEmotionPacket::packet_header() {
        Some(
            match DisplayEmotionPacket::payload_decoding(data, at) {
                Ok((_, length)) => Ok((Seq::empty(), length)),
                Err(error) => Err(error),
            },
        )
    } else if header == EntityMovePacket::packet_header() {
        Some(
            match EntityMovePacket::payload_decoding(data, at) {
                Ok((packet, length)) => Ok(
                    (
                        entity_move_events(packet),
                        length,
                    ),
                ),
                Err(error) => Err(error),
            },
        )
    } else if header == EntityStopMovePacket::packet_header() {
        Some(
            match EntityStopMovePacket::payload_decoding(data, at) {
                Ok((_, length)) => Ok((Seq::empty(), length)),
                Err(error) => Err(error),
            },
        )
    } else if header == EntityAppearedPacket::packet_header() {
        Some(
            match EntityAppearedPacket::payload_decoding(data, at) {
                Ok((packet, length)) => Ok(
                    (
                        entity_appeared_events(packet),
                        length,
                    ),
                ),
                Err(error) => Err(error),
            },
        )
    } else if header == EntityAppeared2Packet::packet_header() {
        Some(
            match EntityAppeared2Packet::payload_decoding(data, at) {
                Ok((packet, length)) => Ok(
                    (
                        entity_appeared2_events(packet),
                        length,
                    ),
                ),
                Err(error) => Err(error),
            },
        )
    } else if header == MovingEntityAppearedPacket::packet_header() {
        Some(
            match MovingEntityAppearedPacket::payload_decoding(data, at) {
                Ok((packet, length)) => Ok(
                    (
                        moving_entity_appeared_events(packet),
                        length,
                    ),
                ),
                Err(error) => Err(error),
            },
        )
    } else if header == EntityDisappearedPacket::packet_header() {
        Some(
            match EntityDisappearedPacket::payload_decoding(data, at) {
                Ok((packet, length)) => Ok(
                    (
                        entity_disappeared_events(packet),
                        length,
                    ),
                ),
                Err(error) => Err(error),
            },
        )
    } else if header == SpriteChangePacket::packet_header() {
        Some(
            match SpriteChangePacket::payload_decoding(data, at) {
                Ok((packet, length)) => Ok(
                    (
                        sprite_change_events(packet),
                        length,
                    ),
                ),
                Err(error) => Err(error),
            },
        )
    } else if header == DisplaySpecialEffectPacket::packet_header() {
        Some(
            match DisplaySpecialEffectPacket::payload_decoding(data, at) {
                Ok((_, length)) => Ok((Seq::empty(), length)),
                Err(error) => Err(error),
            },
        )
    } else if header == VisualEffectPacket::packet_header() {
        Some(
            match VisualEffectPacket::payload_decoding(data, at) {
                Ok((packet, length)) => Ok(
                    (
                        visual_effect_events(packet),
                        length,
                    ),
                ),
                Err(error) => Err(error),
            },
        )
    } else if header == StateChangePacket::packet_header() {
        Some(
            match StateChangePacket::payload_decoding(data, at) {
                Ok((_, length)) => Ok((Seq::empty(), length)),
                Err(error) => Err(error),
            },
        )
    } else if header == RequestPlayerDetailsSuccessPacket::packet_header() {
        Some(
            match RequestPlayerDetailsSuccessPacket::payload_decoding(data, at) {
                Ok((packet, length)) => Ok(
                    (
                        request_player_details_success_events(packet),
                        length,
                    ),
                ),
                Err(error) => Err(error),
            },
        )
    } else if header == RequestEntityDetailsSuccessPacket::packet_header() {
        Some(
            match RequestEntityDetailsSuccessPacket::payload_decoding(data, at) {
                Ok((packet, length)) => Ok(
                    (
                        request_entity_details_success_events(packet),
                        length,
                    ),
                ),
                Err(error) => Err(error),
            },
        )
    } else if header == UpdateEntityHealthPointsPacket::packet_header() {
        Some(
            match UpdateEntityHealthPointsPacket::payload_decoding(data, at) {
                Ok((packet, length)) => Ok(
                    (
                        update_entity_health_points_events(packet),
                        length,
                    ),
                ),
                Err(error) => Err(error),
            },
        )
    } else {
        None
    }
}

/// Decodes the payload of a [`EntityMovePacket`] at the cursor and converts the packet to
/// the events that it brings.
fn entity_move_events_from(byte_stream: &mut ByteStream) -> (result: Result<
    Vec<NetworkEvent>,
    ConversionError,
>)
    requires
        old(byte_stream).offset() >= 2,
    ensures
        final(byte_stream).data() == old(byte_stream).data(),
        final(byte_stream).version() == old(byte_stream).version(),
        match EntityMovePacket::payload_decoding(
            old(byte_stream).data(),
            old(byte_stream).offset() as int,
        ) {
            Ok((packet, length)) => {
                &&& result matches Ok(list)
                &&& event_models(list@) == entity_move_events(packet)
                &&& final(byte_stream).offset() == old(byte_stream).offset() + length
            },
            Err(error) => {
                &&& result matches Err(failure)
                &&& failure == error
                &&& final(byte_stream).offset() == old(byte_stream).offset()
            },
        },
{
    let packet = EntityMovePacket::payload_from_bytes(byte_stream)?;
    let ghost model = packet.model();
    let mut events: Vec<NetworkEvent> = Vec::new();
    let (origin, destination) = packet.from_to.to_vectors();
    events.push(NetworkEvent::EntityMove(packet.entity_id, origin, destination, packet.timestamp));
    assert(event_models(events@) =~= entity_move_events(model));
    Ok(events)
}

/// Decodes the payload of a [`EntityAppearedPacket`] at the cursor and converts the packet to
/// the events that it brings.
fn entity_appeared_events_from(byte_stream: &mut ByteStream) -> (result: Result<
    Vec<NetworkEvent>,
    ConversionError,
>)
    requires
        old(byte_stream).offset() >= 2,
    ensures
        final(byte_stream).data() == old(byte_stream).data(),
        final(byte_stream).version() == old(byte_stream).version(),
        match EntityAppearedPacket::payload_decoding(
            old(byte_stream).data(),
            old(byte_stream).offset() as int,
        ) {
            Ok((packet, length)) => {
                &&& result matches Ok(list)
                &&& event_models(list@) == entity_appeared_events(packet)
                &&& final(byte_stream).offset() == old(byte_stream).offset() + length
            },
            Err(error) => {
                &&& result matches Err(failure)
                &&& failure == error
                &&& final(byte_stream).offset() == old(byte_stream).offset()
            },
        },
{
    let packet = EntityAppearedPacket::payload_from_bytes(byte_stream)?;
    let ghost model = packet.model();
    let mut events: Vec<NetworkEvent> = Vec::new();
    events.push(NetworkEvent::AddEntity(EntityData::from(packet)));
    assert(event_models(events@) =~= entity_appeared_events(model));
    Ok(events)
}

/// Decodes the payload of a [`EntityAppeared2Packet`] at the cursor and converts the packet to
/// the events that it brings.
fn entity_appeared2_events_from(byte_stream: &mut ByteStream) -> (result: Result<
    Vec<NetworkEvent>,
    ConversionError,
>)
    requires
        old(byte_stream).offset() >= 2,
    ensures
        final(byte_stream).data() == old(byte_stream).data(),
        final(byte_stream).version() == old(byte_stream).version(),
        match EntityAppeared2Packet::payload_decoding(
            old(byte_stream).data(),
            old(byte_stream).offset() as int,
        ) {
            Ok((packet, length)) => {
                &&& result matches Ok(list)
                &&& event_models(list@) == entity_appeared2_events(packet)
                &&& final(byte_stream).offset() == old(byte_stream).offset() + length
            },
            Err(error) => {
                &&& result matches Err(failure)
                &&& failure == error
                &&& final(byte_stream).offset() == old(byte_stream).offset()
            },
        },
{
    let packet = EntityAppeared2Packet::payload_from_bytes(byte_stream)?;
    let ghost model = packet.model();
    let mut events: Vec<NetworkEvent> = Vec::new();
    events.push(NetworkEvent::AddEntity(EntityData::from(packet)));
    assert(event_models(events@) =~= entity_appeared2_events(model));
    Ok(events)
}

/// Decodes the payload of a [`MovingEntityAppearedPacket`] at the cursor and converts the packet to
/// the events that it brings.
fn moving_entity_appeared_events_from(byte_stream: &mut ByteStream) -> (result: Result<
    Vec<NetworkEvent>,
    ConversionError,
>)
    requires
        old(byte_stream).offset() >= 2,
    ensures
        final(byte_stream).data() == old(byte_stream).data(),
        final(byte_stream).version() == old(byte_stream).version(),
        match MovingEntityAppearedPacket::payload_decoding(
            old(byte_stream).data(),
            old(byte_stream).offset() as int,
        ) {
            Ok((packet, length)) => {
                &&& result matches Ok(list)
                &&& event_models(list@) == moving_entity_appeared_events(packet)
                &&& final(byte_stream).offset() == old(byte_stream).offset() + length
            },
            Err(error) => {
                &&& result matches Err(failure)
                &&& failure == error
                &&& final(byte_stream).offset() == old(byte_stream).offset()
            },
        },
{
    let packet = MovingEntityAppearedPacket::payload_from_bytes(byte_stream)?;
    let ghost model = packet.model();
    let mut events: Vec<NetworkEvent> = Vec::new();
    events.push(NetworkEvent::AddEntity(EntityData::from(packet)));
    assert(event_models(events@) =~= moving_entity_appeared_events(model));
    Ok(events)
}

/// Decodes the payload of a [`EntityDisappearedPacket`] at the cursor and converts the packet to
/// the events that it brings.
fn entity_disappeared_events_from(byte_stream: &mut ByteStream) -> (result: Result<
    Vec<NetworkEvent>,
    ConversionError,
>)
    requires
        old(byte_stream).offset() >= 2,
    ensures
        final(byte_stream).data() == old(byte_stream).data(),
        final(byte_stream).version() == old(byte_stream).version(),
        match EntityDisappearedPacket::payload_decoding(
            old(byte_stream).data(),
            old(byte_stream).offset() as int,
        ) {
            Ok((packet, length)) => {
                &&& result matches Ok(list)
                &&& event_models(list@) == entity_disappeared_events(packet)
                &&& final(byte_stream).offset() == old(byte_stream).offset() + length
            },
            Err(error) => {
                &&& result matches Err(failure)
                &&& failure == error
                &&& final(byte_stream).offset() == old(byte_stream).offset()
            },
        },
{
    let packet = EntityDisappearedPacket::payload_from_bytes(byte_stream)?;
    let ghost model = packet.model();
    let mut events: Vec<NetworkEvent> = Vec::new();
    events.push(NetworkEvent::RemoveEntity(packet.entity_id));
    assert(event_models(events@) =~= entity_disappeared_events(model));
    Ok(events)
}

/// Decodes the payload of a [`SpriteChangePacket`] at the cursor and converts the packet to
/// the events that it brings.
fn sprite_change_events_from(byte_stream: &mut ByteStream) -> (result: Result<
    Vec<NetworkEvent>,
    ConversionError,
>)
    requires
        old(byte_stream).offset() >= 2,
    ensures
        final(byte_stream).data() == old(byte_stream).data(),
        final(byte_stream).version() == old(byte_stream).version(),
        match SpriteChangePacket::payload_decoding(
            old(byte_stream).data(),
            old(byte_stream).offset() as int,
        ) {
            Ok((packet, length)) => {
                &&& result matches Ok(list)
                &&& event_models(list@) == sprite_change_events(packet)
                &&& final(byte_stream).offset() == old(byte_stream).offset() + length
            },
            Err(error) => {
                &&& result matches Err(failure)
                &&& failure == error
                &&& final(byte_stream).offset() == old(byte_stream).offset()
            },
        },
{
    let packet = SpriteChangePacket::payload_from_bytes(byte_stream)?;
    let ghost model = packet.model();
    let mut events: Vec<NetworkEvent> = Vec::new();
    if packet.sprite_type == 0 {
        events.push(NetworkEvent::ChangeJob(packet.account_id, packet.value));
    }
    assert(event_models(events@) =~= sprite_change_events(model));
    Ok(events)
}

/// Decodes the payload of a [`VisualEffectPacket`] at the cursor and converts the packet to
/// the events that it brings.
fn visual_effect_events_from(byte_stream: &mut ByteStream) -> (result: Result<
    Vec<NetworkEvent>,
    ConversionError,
>)
    requires
        old(byte_stream).offset() >= 2,
    ensures
        final(byte_stream).data() == old(byte_stream).data(),
        final(byte_stream).version() == old(byte_stream).version(),
        match VisualEffectPacket::payload_decoding(
            old(byte_stream).data(),
            old(byte_stream).offset() as int,
        ) {
            Ok((packet, length)) => {
                &&& result matches Ok(list)
                &&& event_models(list@) == visual_effect_events(packet)
                &&& final(byte_stream).offset() == old(byte_stream).offset() + length
            },
            Err(error) => {
                &&& result matches Err(failure)
                &&& failure == error
                &&& final(byte_stream).offset() == old(byte_stream).offset()
            },
        },
{
    let packet = VisualEffectPacket::payload_from_bytes(byte_stream)?;
    let ghost model = packet.model();
    let mut events: Vec<NetworkEvent> = Vec::new();
    events.push(NetworkEvent::VisualEffect(path_of_effect(packet.effect), packet.entity_id));
    assert(event_models(events@) =~= visual_effect_events(model));
    Ok(events)
}

/// Decodes the payload of a [`RequestPlayerDetailsSuccessPacket`] at the cursor
/// and converts the packet to
/// the events that it brings.
fn request_player_details_success_events_from(byte_stream: &mut ByteStream) -> (result: Result<
    Vec<NetworkEvent>,
    ConversionError,
>)
    requires
        old(byte_stream).offset() >= 2,
    ensures
        final(byte_stream).data() == old(byte_stream).data(),
        final(byte_stream).version() == old(byte_stream).version(),
        match RequestPlayerDetailsSuccessPacket::payload_decoding(
            old(byte_stream).data(),
            old(byte_stream).offset() as int,
        ) {
            Ok((packet, length)) => {
                &&& result matches Ok(list)
                &&& event_models(list@) == request_player_details_success_events(packet)
                &&& final(byte_stream).offset() == old(byte_stream).offset() + length
            },
            Err(error) => {
                &&& result matches Err(failure)
                &&& failure == error
                &&& final(byte_stream).offset() == old(byte_stream).offset()
            },
        },
{
    let packet = RequestPlayerDetailsSuccessPacket::payload_from_bytes(byte_stream)?;
    let ghost model = packet.model();
    let mut events: Vec<NetworkEvent> = Vec::new();
    events.push(NetworkEvent::UpdateEntityDetails(EntityId(packet.character_id.0), packet.name));
    assert(event_models(events@) =~= request_player_details_success_events(model));
    Ok(events)
}

/// Decodes the payload of a [`RequestEntityDetailsSuccessPacket`] at the cursor
/// and converts the packet to
/// the events that it brings.
fn request_entity_details_success_events_from(byte_stream: &mut ByteStream) -> (result: Result<
    Vec<NetworkEvent>,
    ConversionError,
>)
    requires
        old(byte_stream).offset() >= 2,
    ensures
        final(byte_stream).data() == old(byte_stream).data(),
        final(byte_stream).version() == old(byte_stream).version(),
        match RequestEntityDetailsSuccessPacket::payload_decoding(
            old(byte_stream).data(),
            old(byte_stream).offset() as int,
        ) {
            Ok((packet, length)) => {
                &&& result matches Ok(list)
                &&& event_models(list@) == request_entity_details_success_events(packet)
                &&& final(byte_stream).offset() == old(byte_stream).offset() + length
            },
            Err(error) => {
                &&& result matches Err(failure)
                &&& failure == error
                &&& final(byte_stream).offset() == old(byte_stream).offset()
            },
        },
{
    let packet = RequestEntityDetailsSuccessPacket::payload_from_bytes(byte_stream)?;
    let ghost model = packet.model();
    let mut events: Vec<NetworkEvent> = Vec::new();
    events.push(NetworkEvent::UpdateEntityDetails(packet.entity_id, packet.name));
    assert(event_models(events@) =~= request_entity_details_success_events(model));
    Ok(events)
}

/// Decodes the payload of a [`UpdateEntityHealthPointsPacket`] at the cursor
/// and converts the packet to
/// the events that it brings.
fn update_entity_health_points_events_from(byte_stream: &mut ByteStream) -> (result: Result<
    Vec<NetworkEvent>,
    ConversionError,
>)
    requires
        old(byte_stream).offset() >= 2,
    ensures
        final(byte_stream).data() == old(byte_stream).data(),
        final(byte_stream).version() == old(byte_stream).version(),
        match UpdateEntityHealthPointsPacket::payload_decoding(
            old(byte_stream).data(),
            old(byte_stream).offset() as int,
        ) {
            Ok((packet, length)) => {
                &&& result matches Ok(list)
                &&& event_models(list@) == update_entity_health_points_events(packet)
                &&& final(byte_stream).offset() == old(byte_stream).offset() + length
            },
            Err(error) => {
                &&& result matches Err(failure)
                &&& failure == error
                &&& final(byte_stream).offset() == old(byte_stream).offset()
            },
        },
{
    let packet = UpdateEntityHealthPointsPacket::payload_from_bytes(byte_stream)?;
    let ghost model = packet.model();
    let mut events: Vec<NetworkEvent> = Vec::new();
    events.push(
        NetworkEvent::UpdateEntityHealth(
            packet.entity_id,
            packet.health_points as usize,
            packet.maximum_health_points as usize,
        ),
    );
    assert(event_models(events@) =~= update_entity_health_points_events(model));
    Ok(events)
}

/// Decodes the payload of a frame about the entities and converts it to the events
/// that it brings. The cursor stands behind the header.
fn entity_events(header: u16, byte_stream: &mut ByteStream) -> (result: Option<
    Result<Vec<NetworkEvent>, ConversionError>,
>)
    requires
        old(byte_stream).offset() >= 2,
    ensures
        final(byte_stream).data() == old(byte_stream).data(),
        final(byte_stream).version() == old(byte_stream).version(),
        match entity_events_at(header, old(byte_stream).data(), old(byte_stream).offset() as int) {
            Some(Ok((events, length))) => {
                &&& result matches Some(Ok(list))
                &&& event_models(list@) == events
                &&& final(byte_stream).offset() == old(byte_stream).offset() + length
            },
            Some(Err(error)) => {
                &&& result matches Some(Err(failure))
                &&& failure == error
                &&& final(byte_stream).offset() == old(byte_stream).offset()
            },
            None => {
                &&& result is None
                &&& final(byte_stream).offset() == old(byte_stream).offset()
            },
        },
{
    proof {
        reveal(entity_events_at);
    }
    if header == DisplayEmotionPacket::header() {
        Some(without_events::<DisplayEmotionPacket>(byte_stream))
    } else if header == EntityMovePacket::header() {
        Some(entity_move_events_from(byte_stream))
    } else if header == EntityStopMovePacket::header() {
        Some(without_events::<EntityStopMovePacket>(byte_stream))
    } else if header == EntityAppearedPacket::header() {
        Some(entity_appeared_events_from(byte_stream))
    } else if header == EntityAppeared2Packet::header() {
        Some(entity_appeared2_events_from(byte_stream))
    } else if header == MovingEntityAppearedPacket::header() {
        Some(moving_entity_appeared_events_from(byte_stream))
    } else if header == EntityDisappearedPacket::header() {
        Some(entity_disappeared_events_from(byte_stream))
    } else if header == SpriteChangePacket::header() {
        Some(sprite_change_events_from(byte_stream))
    } else if header == DisplaySpecialEffectPacket::header() {
        Some(without_events::<DisplaySpecialEffectPacket>(byte_stream))
    } else if header == VisualEffectPacket::header() {
        Some(visual_effect_events_from(byte_stream))
    } else if header == StateChangePacket::header() {
        Some(without_events::<StateChangePacket>(byte_stream))
    } else if header == RequestPlayerDetailsSuccessPacket::header() {
        Some(request_player_details_success_events_from(byte_stream))
    } else if header == RequestEntityDetailsSuccessPacket::header() {
        Some(request_entity_details_success_events_from(byte_stream))
    } else if header == UpdateEntityHealthPointsPacket::header() {
        Some(update_entity_health_points_events_from(byte_stream))
    } else {
        None
    }
}

/// What a frame about the status of the player brings: the events, and the length of the payload
/// that begins at `at`. Nothing where no packet type of the group has the
/// header.
#[verifier::opaque]
pub open spec fn status_events_at(header: u16, data: Seq<u8>, at: int) -> Option<
    Result<(Seq<NetworkEventModel>, nat), ConversionError>,
> {
    if header == UpdateStatusPacket::packet_header() {
        Some(
            match UpdateStatusPacket::payload_decoding(data, at) {
                Ok((packet, length)) => Ok(
                    (
                        update_status_events(packet),
                        length,
                    ),
                ),
                Err(error) => Err(error),
            },
        )
    } else if header == UpdateStatusPacket1::packet_header() {
        Some(
            match UpdateStatusPacket1::payload_decoding(data, at) {
                Ok((packet, length)) => Ok(
                    (
                        update_status_packet1_events(packet),
                        length,
                    ),
                ),
                Err(error) => Err(error),
            },
        )
    } else if header == UpdateStatusPacket2::packet_header() {
        Some(
            match UpdateStatusPacket2::payload_decoding(data, at) {
                Ok((packet, length)) => Ok(
                    (
                        update_status_packet2_events(packet),
                        length,
                    ),
                ),
                Err(error) => Err(error),
            },
        )
    } else if header == UpdateStatusPacket3::packet_header() {
        Some(
            match UpdateStatusPacket3::payload_decoding(data, at) {
                Ok((packet, length)) => Ok(
                    (
                        update_status_packet3_events(packet),
                        length,
                    ),
                ),
                Err(error) => Err(error),
            },
        )
    } else if header == UpdateAttackRangePacket::packet_header() {
        Some(
            match UpdateAttackRangePacket::payload_decoding(data, at) {
                Ok((_, length)) => Ok((Seq::empty(), length)),
                Err(error) => Err(error),
            },
        )
    } else if header == AchievementUpdatePacket::packet_header() {
        Some(
            match AchievementUpdatePacket::payload_decoding(data, at) {
                Ok((_, length)) => Ok((Seq::empty(), length)),
                Err(error) => Err(error),
            },
        )
    } else if header == AchievementListPacket::packet_header() {
        Some(
            match AchievementListPacket::payload_decoding(data, at) {
                Ok((_, length)) => Ok((Seq::empty(), length)),
                Err(error) => Err(error),
            },
        )
    } else if header == CriticalWeightUpdatePacket::packet_header() {
        Some(
            match CriticalWeightUpdatePacket::payload_decoding(data, at) {
                Ok((_, length)) => Ok((Seq::empty(), length)),
                Err(error) => Err(error),
            },
        )
    } else if header == InitialStatusPacket::packet_header() {
        Some(
            match InitialStatusPacket::payload_decoding(data, at) {
                Ok((_, length)) => Ok((Seq::empty(), length)),
                Err(error) => Err(error),
            },
        )
    } else if header == StatusChangePacket::packet_header() {
        Some(
            match StatusChangePacket::payload_decoding(data, at) {
                Ok((_, length)) => Ok((Seq::empty(), length)),
                Err(error) => Err(error),
            },
        )
    } else if header == DisplayGainedExperiencePacket::packet_header() {
        Some(
            match DisplayGainedExperiencePacket::payload_decoding(data, at) {
                Ok((_, length)) => Ok((Seq::empty(), length)),
                Err(error) => Err(error),
            },
        )
    } else if header == StatusChangeSequencePacket::packet_header() {
        Some(
            match StatusChangeSequencePacket::payload_decoding(data, at) {
                Ok((_, length)) => Ok((Seq::empty(), length)),
                Err(error) => Err(error),
            },
        )
    } else {
        None
    }
}

/// Decodes the payload of a [`UpdateStatusPacket`] at the cursor and converts the packet to
/// the events that it brings.
fn update_status_events_from(byte_stream: &mut ByteStream) -> (result: Result<
    Vec<NetworkEvent>,
    ConversionError,
>)
    requires
        old(byte_stream).offset() >= 2,
    ensures
        final(byte_stream).data() == old(byte_stream).data(),
        final(byte_stream).version() == old(byte_stream).version(),
        match UpdateStatusPacket::payload_decoding(
            old(byte_stream).data(),
            old(byte_stream).offset() as int,
        ) {
            Ok((packet, length)) => {
                &&& result matches Ok(list)
                &&& event_models(list@) == update_status_events(packet)
                &&& final(byte_stream).offset() == old(byte_stream).offset() + length
            },
            Err(error) => {
                &&& result matches Err(failure)
                &&& failure == error
                &&& final(byte_stream).offset() == old(byte_stream).offset()
            },
        },
{
    let packet = UpdateStatusPacket::payload_from_bytes(byte_stream)?;
    let ghost model = packet.model();
    let mut events: Vec<NetworkEvent> = Vec::new();
    events.push(NetworkEvent::UpdateStatus(packet.status_type));
    assert(event_models(events@) =~= update_status_events(model));
    Ok(events)
}

/// Decodes the payload of a [`UpdateStatusPacket1`] at the cursor and converts the packet to
/// the events that it brings.
fn update_status_packet1_events_from(byte_stream: &mut ByteStream) -> (result: Result<
    Vec<NetworkEvent>,
    ConversionError,
>)
    requires
        old(byte_stream).offset() >= 2,
    ensures
        final(byte_stream).data() == old(byte_stream).data(),
        final(byte_stream).version() == old(byte_stream).version(),
        match UpdateStatusPacket1::payload_decoding(
            old(byte_stream).data(),
            old(byte_stream).offset() as int,
        ) {
            Ok((packet, length)) => {
                &&& result matches Ok(list)
                &&& event_models(list@) == update_status_packet1_events(packet)
                &&& final(byte_stream).offset() == old(byte_stream).offset() + length
            },
            Err(error) => {
                &&& result matches Err(failure)
                &&& failure == error
                &&& final(byte_stream).offset() == old(byte_stream).offset()
            },
        },
{
    let packet = UpdateStatusPacket1::payload_from_bytes(byte_stream)?;
    let ghost model = packet.model();
    let mut events: Vec<NetworkEvent> = Vec::new();
    events.push(NetworkEvent::UpdateStatus(packet.status_type));
    assert(event_models(events@) =~= update_status_packet1_events(model));
    Ok(events)
}

/// Decodes the payload of a [`UpdateStatusPacket2`] at the cursor and converts the packet to
/// the events that it brings.
fn update_status_packet2_events_from(byte_stream: &mut ByteStream) -> (result: Result<
    Vec<NetworkEvent>,
    ConversionError,
>)
    requires
        old(byte_stream).offset() >= 2,
    ensures
        final(byte_stream).data() == old(byte_stream).data(),
        final(byte_stream).version() == old(byte_stream).version(),
        match UpdateStatusPacket2::payload_decoding(
            old(byte_stream).data(),
            old(byte_stream).offset() as int,
        ) {
            Ok((packet, length)) => {
                &&& result matches Ok(list)
                &&& event_models(list@) == update_status_packet2_events(packet)
                &&& final(byte_stream).offset() == old(byte_stream).offset() + length
            },
            Err(error) => {
                &&& result matches Err(failure)
                &&& failure == error
                &&& final(byte_stream).offset() == old(byte_stream).offset()
            },
        },
{
    let packet = UpdateStatusPacket2::payload_from_bytes(byte_stream)?;
    let ghost model = packet.model();
    let mut events: Vec<NetworkEvent> = Vec::new();
    events.push(NetworkEvent::UpdateStatus(packet.status_type));
    assert(event_models(events@) =~= update_status_packet2_events(model));
    Ok(events)
}

/// Decodes the payload of a [`UpdateStatusPacket3`] at the cursor and converts the packet to
/// the events that it brings.
fn update_status_packet3_events_from(byte_stream: &mut ByteStream) -> (result: Result<
    Vec<NetworkEvent>,
    ConversionError,
>)
    requires
        old(byte_stream).offset() >= 2,
    ensures
        final(byte_stream).data() == old(byte_stream).data(),
        final(byte_stream).version() == old(byte_stream).version(),
        match UpdateStatusPacket3::payload_decoding(
            old(byte_stream).data(),
            old(byte_stream).offset() as int,
        ) {
            Ok((packet, length)) => {
                &&& result matches Ok(list)
                &&& event_models(list@) == update_status_packet3_events(packet)
                &&& final(byte_stream).offset() == old(byte_stream).offset() + length
            },
            Err(error) => {
                &&& result matches Err(failure)
                &&& failure == error
                &&& final(byte_stream).offset() == old(byte_stream).offset()
            },
        },
{
    let packet = UpdateStatusPacket3::payload_from_bytes(byte_stream)?;
    let ghost model = packet.model();
    let mut events: Vec<NetworkEvent> = Vec::new();
    events.push(NetworkEvent::UpdateStatus(packet.status_type));
    assert(event_models(events@) =~= update_status_packet3_events(model));
    Ok(events)
}

/// Decodes the payload of a frame about the status of the player and converts it to the events
/// that it brings. The cursor stands behind the header.
fn status_events(header: u16, byte_stream: &mut ByteStream) -> (result: Option<
    Result<Vec<NetworkEvent>, ConversionError>,
>)
    requires
        old(byte_stream).offset() >= 2,
    ensures
        final(byte_stream).data() == old(byte_stream).data(),
        final(byte_stream).version() == old(byte_stream).version(),
        match status_events_at(header, old(byte_stream).data(), old(byte_stream).offset() as int) {
            Some(Ok((events, length))) => {
                &&& result matches Some(Ok(list))
                &&& event_models(list@) == events
                &&& final(byte_stream).offset() == old(byte_stream).offset() + length
            },
            Some(Err(error)) => {
                &&& result matches Some(Err(failure))
                &&& failure == error
                &&& final(byte_stream).offset() == old(byte_stream).offset()
            },
            None => {
                &&& result is None
                &&& final(byte_stream).offset() == old(byte_stream).offset()
            },
        },
{
    proof {
        reveal(status_events_at);
    }
    if header == UpdateStatusPacket::header() {
        Some(update_status_events_from(byte_stream))
    } else if header == UpdateStatusPacket1::header() {
        Some(update_status_packet1_events_from(byte_stream))
    } else if header == UpdateStatusPacket2::header() {
        Some(update_status_packet2_events_from(byte_stream))
    } else if header == UpdateStatusPacket3::header() {
        Some(update_status_packet3_events_from(byte_stream))
    } else if header == UpdateAttackRangePacket::header() {
        Some(without_events::<UpdateAttackRangePacket>(byte_stream))
    } else if header == AchievementUpdatePacket::header() {
        Some(without_events::<AchievementUpdatePacket>(byte_stream))
    } else if header == AchievementListPacket::header() {
        Some(without_events::<AchievementListPacket>(byte_stream))
    } else if header == CriticalWeightUpdatePacket::header() {
        Some(without_events::<CriticalWeightUpdatePacket>(byte_stream))
    } else if header == InitialStatusPacket::header() {
        Some(without_events::<InitialStatusPacket>(byte_stream))
    } else if header == StatusChangePacket::header() {
        Some(without_events::<StatusChangePacket>(byte_stream))
    } else if header == DisplayGainedExperiencePacket::header() {
        Some(without_events::<DisplayGainedExperiencePacket>(byte_stream))
    } else if header == StatusChangeSequencePacket::header() {
        Some(without_events::<StatusChangeSequencePacket>(byte_stream))
    } else {
        None
    }
}

/// What a frame about the map and the connection brings: the events, and the length of the payload
/// that begins at `at`. Nothing where no packet type of the group has the
/// header.
#[verifier::opaque]
pub open spec fn map_events_at(header: u16, data: Seq<u8>, at: int) -> Option<
    Result<(Seq<NetworkEventModel>, nat), ConversionError>,
> {
    if header == PlayerMovePacket::packet_header() {
        Some(
            match PlayerMovePacket::payload_decoding(data, at) {
                Ok((packet, length)) => Ok(
                    (
                        player_move_events(packet),
                        length,
                    ),
                ),
                Err(error) => Err(error),
            },
        )
    } else if header == ChangeMapPacket::packet_header() {
        Some(
            match ChangeMapPacket::payload_decoding(data, at) {
                Ok((packet, length)) => Ok(
                    (
                        change_map_events(packet),
                        length,
                    ),
                ),
                Err(error) => Err(error),
            },
        )
    } else if header == NewMailStatusPacket::packet_header() {
        Some(
            match NewMailStatusPacket::payload_decoding(data, at) {
                Ok((_, length)) => Ok((Seq::empty(), length)),
                Err(error) => Err(error),
            },
        )
    } else if header == MapTypePacket::packet_header() {
        Some(
            match MapTypePacket::payload_decoding(data, at) {
                Ok((_, length)) => Ok((Seq::empty(), length)),
                Err(error) => Err(error),
            },
        )
    } else if header == UpdatePartyInvitationStatePacket::packet_header() {
        Some(
            match UpdatePartyInvitationStatePacket::payload_decoding(data, at) {
                Ok((_, length)) => Ok((Seq::empty(), length)),
                Err(error) => Err(error),
            },
        )
    } else if header == UpdateShowEquipPacket::packet_header() {
        Some(
            match UpdateShowEquipPacket::payload_decoding(data, at) {
                Ok((_, length)) => Ok((Seq::empty(), length)),
                Err(error) => Err(error),
            },
        )
    } else if header == UpdateConfigurationPacket::packet_header() {
        Some(
            match UpdateConfigurationPacket::payload_decoding(data, at) {
                Ok((_, length)) => Ok((Seq::empty(), length)),
                Err(error) => Err(error),
            },
        )
    } else if header == NavigateToMonsterPacket::packet_header() {
        Some(
            match NavigateToMonsterPacket::payload_decoding(data, at) {
                Ok((_, length)) => Ok((Seq::empty(), length)),
                Err(error) => Err(error),
            },
        )
    } else if header == MarkMinimapPositionPacket::packet_header() {
        Some(
            match MarkMinimapPositionPacket::payload_decoding(data, at) {
                Ok((_, length)) => Ok((Seq::empty(), length)),
                Err(error) => Err(error),
            },
        )
    } else if header == DisplayImagePacket::packet_header() {
        Some(
            match DisplayImagePacket::payload_decoding(data, at) {
                Ok((_, length)) => Ok((Seq::empty(), length)),
                Err(error) => Err(error),
            },
        )
    } else if header == ServerTickPacket::packet_header() {
        Some(
            match ServerTickPacket::payload_decoding(data, at) {
                Ok((packet, length)) => Ok(
                    (
                        server_tick_events(packet),
                        length,
                    ),
                ),
                Err(error) => Err(error),
            },
        )
    } else if header == Packet8302::packet_header() {
        Some(
            match Packet8302::payload_decoding(data, at) {
                Ok((_, length)) => Ok((Seq::empty(), length)),
                Err(error) => Err(error),
            },
        )
    } else if header == Packet180b::packet_header() {
        Some(
            match Packet180b::payload_decoding(data, at) {
                Ok((_, length)) => Ok((Seq::empty(), length)),
                Err(error) => Err(error),
            },
        )
    } else if header == MapServerLoginSuccessPacket::packet_header() {
        Some(
            match MapServerLoginSuccessPacket::payload_decoding(data, at) {
                Ok((packet, length)) => Ok(
                    (
                        map_server_login_success_events(packet),
                        length,
                    ),
                ),
                Err(error) => Err(error),
            },
        )
    } else if header == RestartResponsePacket::packet_header() {
        Some(
            match RestartResponsePacket::payload_decoding(data, at) {
                Ok((packet, length)) => Ok(
                    (
                        restart_response_events(packet),
                        length,
                    ),
                ),
                Err(error) => Err(error),
            },
        )
    } else if header == DisconnectResponsePacket::packet_header() {
        Some(
            match DisconnectResponsePacket::payload_decoding(data, at) {
                Ok((packet, length)) => Ok(
                    (
                        disconnect_response_events(packet),
                        length,
                    ),
                ),
                Err(error) => Err(error),
            },
        )
    } else if header == ChangeMapCellPacket::packet_header() {
        Some(
            match ChangeMapCellPacket::payload_decoding(data, at) {
                Ok((_, length)) => Ok((Seq::empty(), length)),
                Err(error) => Err(error),
            },
        )
    } else {
        None
    }
}

/// Decodes the payload of a [`PlayerMovePacket`] at the cursor and converts the packet to
/// the events that it brings.
fn player_move_events_from(byte_stream: &mut ByteStream) -> (result: Result<
    Vec<NetworkEvent>,
    ConversionError,
>)
    requires
        old(byte_stream).offset() >= 2,
    ensures
        final(byte_stream).data() == old(byte_stream).data(),
        final(byte_stream).version() == old(byte_stream).version(),
        match PlayerMovePacket::payload_decoding(
            old(byte_stream).data(),
            old(byte_stream).offset() as int,
        ) {
            Ok((packet, length)) => {
                &&& result matches Ok(list)
                &&& event_models(list@) == player_move_events(packet)
                &&& final(byte_stream).offset() == old(byte_stream).offset() + length
            },
            Err(error) => {
                &&& result matches Err(failure)
                &&& failure == error
                &&& final(byte_stream).offset() == old(byte_stream).offset()
            },
        },
{
    let packet = PlayerMovePacket::payload_from_bytes(byte_stream)?;
    let ghost model = packet.model();
    let mut events: Vec<NetworkEvent> = Vec::new();
    let (origin, destination) = packet.from_to.to_vectors();
    events.push(NetworkEvent::PlayerMove(origin, destination, packet.timestamp));
    assert(event_models(events@) =~= player_move_events(model));
    Ok(events)
}

/// Decodes the payload of a [`ChangeMapPacket`] at the cursor and converts the packet to
/// the events that it brings.
fn change_map_events_from(byte_stream: &mut ByteStream) -> (result: Result<
    Vec<NetworkEvent>,
    ConversionError,
>)
    requires
        old(byte_stream).offset() >= 2,
    ensures
        final(byte_stream).data() == old(byte_stream).data(),
        final(byte_stream).version() == old(byte_stream).version(),
        match ChangeMapPacket::payload_decoding(
            old(byte_stream).data(),
            old(byte_stream).offset() as int,
        ) {
            Ok((packet, length)) => {
                &&& result matches Ok(list)
                &&& event_models(list@) == change_map_events(packet)
                &&& final(byte_stream).offset() == old(byte_stream).offset() + length
            },
            Err(error) => {
                &&& result matches Err(failure)
                &&& failure == error
                &&& final(byte_stream).offset() == old(byte_stream).offset()
            },
        },
{
    let packet = ChangeMapPacket::payload_from_bytes(byte_stream)?;
    let ghost model = packet.model();
    let mut events: Vec<NetworkEvent> = Vec::new();
    let map_name = remove_all(packet.map_name.as_str(), ".gat");
    let position = Vector2 { x: packet.position.x as usize, y: packet.position.y as usize };
    events.push(NetworkEvent::ChangeMap(map_name, position));
    assert(event_models(events@) =~= change_map_events(model));
    Ok(events)
}

/// Decodes the payload of a [`ServerTickPacket`] at the cursor and converts the packet to
/// the events that it brings.
fn server_tick_events_from(byte_stream: &mut ByteStream) -> (result: Result<
    Vec<NetworkEvent>,
    ConversionError,
>)
    requires
        old(byte_stream).offset() >= 2,
    ensures
        final(byte_stream).data() == old(byte_stream).data(),
        final(byte_stream).version() == old(byte_stream).version(),
        match ServerTickPacket::payload_decoding(
            old(byte_stream).data(),
            old(byte_stream).offset() as int,
        ) {
            Ok((packet, length)) => {
                &&& result matches Ok(list)
                &&& event_models(list@) == server_tick_events(packet)
                &&& final(byte_stream).offset() == old(byte_stream).offset() + length
            },
            Err(error) => {
                &&& result matches Err(failure)
                &&& failure == error
                &&& final(byte_stream).offset() == old(byte_stream).offset()
            },
        },
{
    let packet = ServerTickPacket::payload_from_bytes(byte_stream)?;
    let ghost model = packet.model();
    let mut events: Vec<NetworkEvent> = Vec::new();
    events.push(NetworkEvent::UpdateClientTick(packet.client_tick));
    assert(event_models(events@) =~= server_tick_events(model));
    Ok(events)
}

/// Decodes the payload of a [`MapServerLoginSuccessPacket`] at the cursor and
/// converts the packet to
/// the events that it brings.
fn map_server_login_success_events_from(byte_stream: &mut ByteStream) -> (result: Result<
    Vec<NetworkEvent>,
    ConversionError,
>)
    requires
        old(byte_stream).offset() >= 2,
    ensures
        final(byte_stream).data() == old(byte_stream).data(),
        final(byte_stream).version() == old(byte_stream).version(),
        match MapServerLoginSuccessPacket::payload_decoding(
            old(byte_stream).data(),
            old(byte_stream).offset() as int,
        ) {
            Ok((packet, length)) => {
                &&& result matches Ok(list)
                &&& event_models(list@) == map_server_login_success_events(packet)
                &&& final(byte_stream).offset() == old(byte_stream).offset() + length
            },
            Err(error) => {
                &&& result matches Err(failure)
                &&& failure == error
                &&& final(byte_stream).offset() == old(byte_stream).offset()
            },
        },
{
    let packet = MapServerLoginSuccessPacket::payload_from_bytes(byte_stream)?;
    let ghost model = packet.model();
    let mut events: Vec<NetworkEvent> = Vec::new();
    events.push(NetworkEvent::UpdateClientTick(packet.client_tick));
    events.push(NetworkEvent::SetPlayerPosition(packet.position.to_vector()));
    assert(event_models(events@) =~= map_server_login_success_events(model));
    Ok(events)
}

/// Decodes the payload of a [`RestartResponsePacket`] at the cursor and converts the packet to
/// the events that it brings.
fn restart_response_events_from(byte_stream: &mut ByteStream) -> (result: Result<
    Vec<NetworkEvent>,
    ConversionError,
>)
    requires
        old(byte_stream).offset() >= 2,
    ensures
        final(byte_stream).data() == old(byte_stream).data(),
        final(byte_stream).version() == old(byte_stream).version(),
        match RestartResponsePacket::payload_decoding(
            old(byte_stream).data(),
            old(byte_stream).offset() as int,
        ) {
            Ok((packet, length)) => {
                &&& result matches Ok(list)
                &&& event_models(list@) == restart_response_events(packet)
                &&& final(byte_stream).offset() == old(byte_stream).offset() + length
            },
            Err(error) => {
                &&& result matches Err(failure)
                &&& failure == error
                &&& final(byte_stream).offset() == old(byte_stream).offset()
            },
        },
{
    let packet = RestartResponsePacket::payload_from_bytes(byte_stream)?;
    let ghost model = packet.model();
    let mut events: Vec<NetworkEvent> = Vec::new();
    match packet.result {
        RestartResponseStatus::Okay => events.push(NetworkEvent::Disconnect),
        RestartResponseStatus::Nothing => {
            let text = String::from_str("Failed to log out.");
            events.push(
                NetworkEvent::ChatMessage(ChatMessage::new(text, Color::rgb(255, 100, 100))),
            );
        },
    }
    assert(event_models(events@) =~= restart_response_events(model));
    Ok(events)
}

/// Decodes the payload of a [`DisconnectResponsePacket`] at the cursor and converts the packet to
/// the events that it brings.
fn disconnect_response_events_from(byte_stream: &mut ByteStream) -> (result: Result<
    Vec<NetworkEvent>,
    ConversionError,
>)
    requires
        old(byte_stream).offset() >= 2,
    ensures
        final(byte_stream).data() == old(byte_stream).data(),
        final(byte_stream).version() == old(byte_stream).version(),
        match DisconnectResponsePacket::payload_decoding(
            old(byte_stream).data(),
            old(byte_stream).offset() as int,
        ) {
            Ok((packet, length)) => {
                &&& result matches Ok(list)
                &&& event_models(list@) == disconnect_response_events(packet)
                &&& final(byte_stream).offset() == old(byte_stream).offset() + length
            },
            Err(error) => {
                &&& result matches Err(failure)
                &&& failure == error
                &&& final(byte_stream).offset() == old(byte_stream).offset()
            },
        },
{
    let packet = DisconnectResponsePacket::payload_from_bytes(byte_stream)?;
    let ghost model = packet.model();
    let mut events: Vec<NetworkEvent> = Vec::new();
    match packet.result {
        DisconnectResponseStatus::Okay => events.push(NetworkEvent::Disconnect),
        DisconnectResponseStatus::Wait10Seconds => {
            let text = String::from_str("Please wait 10 seconds before trying to log out.");
            events.push(
                NetworkEvent::ChatMessage(ChatMessage::new(text, Color::rgb(255, 100, 100))),
            );
        },
    }
    assert(event_models(events@) =~= disconnect_response_events(model));
    Ok(events)
}

/// Decodes the payload of a frame about the map and the connection and converts it to the events
/// that it brings. The cursor stands behind the header.
fn map_events(header: u16, byte_stream: &mut ByteStream) -> (result: Option<
    Result<Vec<NetworkEvent>, ConversionError>,
>)
    requires
        old(byte_stream).offset() >= 2,
    ensures
        final(byte_stream).data() == old(byte_stream).data(),
        final(byte_stream).version() == old(byte_stream).version(),
        match map_events_at(header, old(byte_stream).data(), old(byte_stream).offset() as int) {
            Some(Ok((events, length))) => {
                &&& result matches Some(Ok(list))
                &&& event_models(list@) == events
                &&& final(byte_stream).offset() == old(byte_stream).offset() + length
            },
            Some(Err(error)) => {
                &&& result matches Some(Err(failure))
                &&& failure == error
                &&& final(byte_stream).offset() == old(byte_stream).offset()
            },
            None => {
                &&& result is None
                &&& final(byte_stream).offset() == old(byte_stream).offset()
            },
        },
{
    proof {
        reveal(map_events_at);
    }
    if header == PlayerMovePacket::header() {
        Some(player_move_events_from(byte_stream))
    } else if header == ChangeMapPacket::header() {
        Some(change_map_events_from(byte_stream))
    } else if header == NewMailStatusPacket::header() {
        Some(without_events::<NewMailStatusPacket>(byte_stream))
    } else if header == MapTypePacket::header() {
        Some(without_events::<MapTypePacket>(byte_stream))
    } else if header == UpdatePartyInvitationStatePacket::header() {
        Some(without_events::<UpdatePartyInvitationStatePacket>(byte_stream))
    } else if header == UpdateShowEquipPacket::header() {
        Some(without_events::<UpdateShowEquipPacket>(byte_stream))
    } else if header == UpdateConfigurationPacket::header() {
        Some(without_events::<UpdateConfigurationPacket>(byte_stream))
    } else if header == NavigateToMonsterPacket::header() {
        Some(without_events::<NavigateToMonsterPacket>(byte_stream))
    } else if header == MarkMinimapPositionPacket::header() {
        Some(without_events::<MarkMinimapPositionPacket>(byte_stream))
    } else if header == DisplayImagePacket::header() {
        Some(without_events::<DisplayImagePacket>(byte_stream))
    } else if header == ServerTickPacket::header() {
        Some(server_tick_events_from(byte_stream))
    } else if header == Packet8302::header() {
        Some(without_events::<Packet8302>(byte_stream))
    } else if header == Packet180b::header() {
        Some(without_events::<Packet180b>(byte_stream))
    } else if header == MapServerLoginSuccessPacket::header() {
        Some(map_server_login_success_events_from(byte_stream))
    } else if header == RestartResponsePacket::header() {
        Some(restart_response_events_from(byte_stream))
    } else if header == DisconnectResponsePacket::header() {
        Some(disconnect_response_events_from(byte_stream))
    } else if header == ChangeMapCellPacket::header() {
        Some(without_events::<ChangeMapCellPacket>(byte_stream))
    } else {
        None
    }
}

/// What a frame about the items brings: the events, and the length of the payload
/// that begins at `at`. Nothing where no packet type of the group has the
/// header.
#[verifier::opaque]
pub open spec fn inventory_events_at(header: u16, data: Seq<u8>, at: int) -> Option<
    Result<(Seq<NetworkEventModel>, nat), ConversionError>,
> {
    if header == EquippableSwitchItemListPacket::packet_header() {
        Some(
            match EquippableSwitchItemListPacket::payload_decoding(data, at) {
                Ok((_, length)) => Ok((Seq::empty(), length)),
                Err(error) => Err(error),
            },
        )
    } else if header == ItemPickupPacket::packet_header() {
        Some(
            match ItemPickupPacket::payload_decoding(data, at) {
                Ok((packet, length)) => Ok(
                    (
                        item_pickup_events(packet),
                        length,
                    ),
                ),
                Err(error) => Err(error),
            },
        )
    } else if header == RemoveItemFromInventoryPacket::packet_header() {
        Some(
            match RemoveItemFromInventoryPacket::payload_decoding(data, at) {
                Ok((_, length)) => Ok((Seq::empty(), length)),
                Err(error) => Err(error),
            },
        )
    } else if header == RequestEquipItemStatusPacket::packet_header() {
        Some(
            match RequestEquipItemStatusPacket::payload_decoding(data, at) {
                Ok((packet, length)) => Ok(
                    (
                        request_equip_item_status_events(packet),
                        length,
                    ),
                ),
                Err(error) => Err(error),
            },
        )
    } else if header == RequestUnequipItemStatusPacket::packet_header() {
        Some(
            match RequestUnequipItemStatusPacket::payload_decoding(data, at) {
                Ok((packet, length)) => Ok(
                    (
                        request_unequip_item_status_events(packet),
                        length,
                    ),
                ),
                Err(error) => Err(error),
            },
        )
    } else {
        None
    }
}

/// Decodes the payload of a [`ItemPickupPacket`] at the cursor and converts the packet to
/// the events that it brings.
fn item_pickup_events_from(byte_stream: &mut ByteStream) -> (result: Result<
    Vec<NetworkEvent>,
    ConversionError,
>)
    requires
        old(byte_stream).offset() >= 2,
    ensures
        final(byte_stream).data() == old(byte_stream).data(),
        final(byte_stream).version() == old(byte_stream).version(),
        match ItemPickupPacket::payload_decoding(
            old(byte_stream).data(),
            old(byte_stream).offset() as int,
        ) {
            Ok((packet, length)) => {
                &&& result matches Ok(list)
                &&& event_models(list@) == item_pickup_events(packet)
                &&& final(byte_stream).offset() == old(byte_stream).offset() + length
            },
            Err(error) => {
                &&& result matches Err(failure)
                &&& failure == error
                &&& final(byte_stream).offset() == old(byte_stream).offset()
            },
        },
{
    let packet = ItemPickupPacket::payload_from_bytes(byte_stream)?;
    let ghost model = packet.model();
    let mut events: Vec<NetworkEvent> = Vec::new();
    events.push(
        NetworkEvent::AddIventoryItem(
            packet.index,
            packet.item_id,
            packet.equip_position,
            EquipPosition::NoPosition,
        ),
    );
    assert(event_models(events@) =~= item_pickup_events(model));
    Ok(events)
}

/// Decodes the payload of a [`RequestEquipItemStatusPacket`] at the cursor and
/// converts the packet to
/// the events that it brings.
fn request_equip_item_status_events_from(byte_stream: &mut ByteStream) -> (result: Result<
    Vec<NetworkEvent>,
    ConversionError,
>)
    requires
        old(byte_stream).offset() >= 2,
    ensures
        final(byte_stream).data() == old(byte_stream).data(),
        final(byte_stream).version() == old(byte_stream).version(),
        match RequestEquipItemStatusPacket::payload_decoding(
            old(byte_stream).data(),
            old(byte_stream).offset() as int,
        ) {
            Ok((packet, length)) => {
                &&& result matches Ok(list)
                &&& event_models(list@) == request_equip_item_status_events(packet)
                &&& final(byte_stream).offset() == old(byte_stream).offset() + length
            },
            Err(error) => {
                &&& result matches Err(failure)
                &&& failure == error
                &&& final(byte_stream).offset() == old(byte_stream).offset()
            },
        },
{
    let packet = RequestEquipItemStatusPacket::payload_from_bytes(byte_stream)?;
    let ghost model = packet.model();
    let mut events: Vec<NetworkEvent> = Vec::new();
    if packet.result == RequestEquipItemStatus::Success {
        events.push(NetworkEvent::UpdateEquippedPosition {
            index: packet.inventory_index,
            equipped_position: packet.equipped_position,
        });
    }
    assert(event_models(events@) =~= request_equip_item_status_events(model));
    Ok(events)
}

/// Decodes the payload of a [`RequestUnequipItemStatusPacket`] at the cursor
/// and converts the packet to
/// the events that it brings.
fn request_unequip_item_status_events_from(byte_stream: &mut ByteStream) -> (result: Result<
    Vec<NetworkEvent>,
    ConversionError,
>)
    requires
        old(byte_stream).offset() >= 2,
    ensures
        final(byte_stream).data() == old(byte_stream).data(),
        final(byte_stream).version() == old(byte_stream).version(),
        match RequestUnequipItemStatusPacket::payload_decoding(
            old(byte_stream).data(),
            old(byte_stream).offset() as int,
        ) {
            Ok((packet, length)) => {
                &&& result matches Ok(list)
                &&& event_models(list@) == request_unequip_item_status_events(packet)
                &&& final(byte_stream).offset() == old(byte_stream).offset() + length
            },
            Err(error) => {
                &&& result matches Err(failure)
                &&& failure == error
                &&& final(byte_stream).offset() == old(byte_stream).offset()
            },
        },
{
    let packet = RequestUnequipItemStatusPacket::payload_from_bytes(byte_stream)?;
    let ghost model = packet.model();
    let mut events: Vec<NetworkEvent> = Vec::new();
    if packet.result == RequestUnequipItemStatus::Success {
        events.push(NetworkEvent::UpdateEquippedPosition {
            index: packet.inventory_index,
            equipped_position: EquipPosition::NoPosition,
        });
    }
    assert(event_models(events@) =~= request_unequip_item_status_events(model));
    Ok(events)
}

/// Decodes the payload of a frame about the items and converts it to the events
/// that it brings. The cursor stands behind the header.
fn inventory_events(header: u16, byte_stream: &mut ByteStream) -> (result: Option<
    Result<Vec<NetworkEvent>, ConversionError>,
>)
    requires
        old(byte_stream).offset() >= 2,
    ensures
        final(byte_stream).data() == old(byte_stream).data(),
        final(byte_stream).version() == old(byte_stream).version(),
        match inventory_events_at(
            header,
            old(byte_stream).data(),
            old(byte_stream).offset() as int,
        ) {
            Some(Ok((events, length))) => {
                &&& result matches Some(Ok(list))
                &&& event_models(list@) == events
                &&& final(byte_stream).offset() == old(byte_stream).offset() + length
            },
            Some(Err(error)) => {
                &&& result matches Some(Err(failure))
                &&& failure == error
                &&& final(byte_stream).offset() == old(byte_stream).offset()
            },
            None => {
                &&& result is None
                &&& final(byte_stream).offset() == old(byte_stream).offset()
            },
        },
{
    proof {
        reveal(inventory_events_at);
    }
    if header == EquippableSwitchItemListPacket::header() {
        Some(without_events::<EquippableSwitchItemListPacket>(byte_stream))
    } else if header == ItemPickupPacket::header() {
        Some(item_pickup_events_from(byte_stream))
    } else if header == RemoveItemFromInventoryPacket::header() {
        Some(without_events::<RemoveItemFromInventoryPacket>(byte_stream))
    } else if header == RequestEquipItemStatusPacket::header() {
        Some(request_equip_item_status_events_from(byte_stream))
    } else if header == RequestUnequipItemStatusPacket::header() {
        Some(request_unequip_item_status_events_from(byte_stream))
    } else {
        None
    }
}

/// What a frame about skills and combat brings: the events, and the length of the payload
/// that begins at `at`. Nothing where no packet type of the group has the
/// header.
#[verifier::opaque]
pub open spec fn skill_events_at(header: u16, data: Seq<u8>, at: int) -> Option<
    Result<(Seq<NetworkEventModel>, nat), ConversionError>,
> {
    if header == UpdateSkillTreePacket::packet_header() {
        Some(
            match UpdateSkillTreePacket::payload_decoding(data, at) {
                Ok((packet, length)) => Ok(
                    (
                        update_skill_tree_events(packet),
                        length,
                    ),
                ),
                Err(error) => Err(error),
            },
        )
    } else if header == UpdateHotkeysPacket::packet_header() {
        Some(
            match UpdateHotkeysPacket::payload_decoding(data, at) {
                Ok((_, length)) => Ok((Seq::empty(), length)),
                Err(error) => Err(error),
            },
        )
    } else if header == DisplaySkillCooldownPacket::packet_header() {
        Some(
            match DisplaySkillCooldownPacket::payload_decoding(data, at) {
                Ok((_, length)) => Ok((Seq::empty(), length)),
                Err(error) => Err(error),
            },
        )
    } else if header == DisplaySkillEffectAndDamagePacket::packet_header() {
        Some(
            match DisplaySkillEffectAndDamagePacket::payload_decoding(data, at) {
                Ok((_, length)) => Ok((Seq::empty(), length)),
                Err(error) => Err(error),
            },
        )
    } else if header == DisplaySkillEffectNoDamagePacket::packet_header() {
        Some(
            match DisplaySkillEffectNoDamagePacket::payload_decoding(data, at) {
                Ok((packet, length)) => Ok(
                    (
                        display_skill_effect_no_damage_events(packet),
                        length,
                    ),
                ),
                Err(error) => Err(error),
            },
        )
    } else if header == DisplayPlayerHealEffect::packet_header() {
        Some(
            match DisplayPlayerHealEffect::payload_decoding(data, at) {
                Ok((_, length)) => Ok((Seq::empty(), length)),
                Err(error) => Err(error),
            },
        )
    } else if header == RequestPlayerAttackFailedPacket::packet_header() {
        Some(
            match RequestPlayerAttackFailedPacket::payload_decoding(data, at) {
                Ok((_, length)) => Ok((Seq::empty(), length)),
                Err(error) => Err(error),
            },
        )
    } else if header == DamagePacket::packet_header() {
        Some(
            match DamagePacket::payload_decoding(data, at) {
                Ok((packet, length)) => Ok(
                    (
                        damage_events(packet),
                        length,
                    ),
                ),
                Err(error) => Err(error),
            },
        )
    } else if header == UseSkillSuccessPacket::packet_header() {
        Some(
            match UseSkillSuccessPacket::payload_decoding(data, at) {
                Ok((_, length)) => Ok((Seq::empty(), length)),
                Err(error) => Err(error),
            },
        )
    } else if header == ToUseSkillSuccessPacket::packet_header() {
        Some(
            match ToUseSkillSuccessPacket::payload_decoding(data, at) {
                Ok((_, length)) => Ok((Seq::empty(), length)),
                Err(error) => Err(error),
            },
        )
    } else if header == NotifySkillUnitPacket::packet_header() {
        Some(
            match NotifySkillUnitPacket::payload_decoding(data, at) {
                Ok((packet, length)) => Ok(
                    (
                        notify_skill_unit_events(packet),
                        length,
                    ),
                ),
                Err(error) => Err(error),
            },
        )
    } else if header == SkillUnitDisappearPacket::packet_header() {
        Some(
            match SkillUnitDisappearPacket::payload_decoding(data, at) {
                Ok((packet, length)) => Ok(
                    (
                        skill_unit_disappear_events(packet),
                        length,
                    ),
                ),
                Err(error) => Err(error),
            },
        )
    } else if header == NotifyGroundSkillPacket::packet_header() {
        Some(
            match NotifyGroundSkillPacket::payload_decoding(data, at) {
                Ok((_, length)) => Ok((Seq::empty(), length)),
                Err(error) => Err(error),
            },
        )
    } else {
        None
    }
}

/// Decodes the payload of a [`UpdateSkillTreePacket`] at the cursor and converts the packet to
/// the events that it brings.
fn update_skill_tree_events_from(byte_stream: &mut ByteStream) -> (result: Result<
    Vec<NetworkEvent>,
    ConversionError,
>)
    requires
        old(byte_stream).offset() >= 2,
    ensures
        final(byte_stream).data() == old(byte_stream).data(),
        final(byte_stream).version() == old(byte_stream).version(),
        match UpdateSkillTreePacket::payload_decoding(
            old(byte_stream).data(),
            old(byte_stream).offset() as int,
        ) {
            Ok((packet, length)) => {
                &&& result matches Ok(list)
                &&& event_models(list@) == update_skill_tree_events(packet)
                &&& final(byte_stream).offset() == old(byte_stream).offset() + length
            },
            Err(error) => {
                &&& result matches Err(failure)
                &&& failure == error
                &&& final(byte_stream).offset() == old(byte_stream).offset()
            },
        },
{
    let packet = UpdateSkillTreePacket::payload_from_bytes(byte_stream)?;
    let ghost model = packet.model();
    let mut events: Vec<NetworkEvent> = Vec::new();
    events.push(NetworkEvent::SkillTree(packet.skill_information));
    assert(event_models(events@) =~= update_skill_tree_events(model));
    Ok(events)
}

/// Decodes the payload of a [`DisplaySkillEffectNoDamagePacket`] at the cursor
/// and converts the packet to
/// the events that it brings.
fn display_skill_effect_no_damage_events_from(byte_stream: &mut ByteStream) -> (result: Result<
    Vec<NetworkEvent>,
    ConversionError,
>)
    requires
        old(byte_stream).offset() >= 2,
    ensures
        final(byte_stream).data() == old(byte_stream).data(),
        final(byte_stream).version() == old(byte_stream).version(),
        match DisplaySkillEffectNoDamagePacket::payload_decoding(
            old(byte_stream).data(),
            old(byte_stream).offset() as int,
        ) {
            Ok((packet, length)) => {
                &&& result matches Ok(list)
                &&& event_models(list@) == display_skill_effect_no_damage_events(packet)
                &&& final(byte_stream).offset() == old(byte_stream).offset() + length
            },
            Err(error) => {
                &&& result matches Err(failure)
                &&& failure == error
                &&& final(byte_stream).offset() == old(byte_stream).offset()
            },
        },
{
    let packet = DisplaySkillEffectNoDamagePacket::payload_from_bytes(byte_stream)?;
    let ghost model = packet.model();
    let mut events: Vec<NetworkEvent> = Vec::new();
    events.push(
        NetworkEvent::HealEffect(packet.destination_entity_id, packet.heal_amount as usize),
    );
    assert(event_models(events@) =~= display_skill_effect_no_damage_events(model));
    Ok(events)
}

/// Decodes the payload of a [`DamagePacket`] at the cursor and converts the packet to
/// the events that it brings.
fn damage_events_from(byte_stream: &mut ByteStream) -> (result: Result<
    Vec<NetworkEvent>,
    ConversionError,
>)
    requires
        old(byte_stream).offset() >= 2,
    ensures
        final(byte_stream).data() == old(byte_stream).data(),
        final(byte_stream).version() == old(byte_stream).version(),
        match DamagePacket::payload_decoding(
            old(byte_stream).data(),
            old(byte_stream).offset() as int,
        ) {
            Ok((packet, length)) => {
                &&& result matches Ok(list)
                &&& event_models(list@) == damage_events(packet)
                &&& final(byte_stream).offset() == old(byte_stream).offset() + length
            },
            Err(error) => {
                &&& result matches Err(failure)
                &&& failure == error
                &&& final(byte_stream).offset() == old(byte_stream).offset()
            },
        },
{
    let packet = DamagePacket::payload_from_bytes(byte_stream)?;
    let ghost model = packet.model();
    let mut events: Vec<NetworkEvent> = Vec::new();
    events.push(
        NetworkEvent::DamageEffect(packet.destination_entity_id, packet.damage_amount as usize),
    );
    assert(event_models(events@) =~= damage_events(model));
    Ok(events)
}

/// Decodes the payload of a [`NotifySkillUnitPacket`] at the cursor and converts the packet to
/// the events that it brings.
fn notify_skill_unit_events_from(byte_stream: &mut ByteStream) -> (result: Result<
    Vec<NetworkEvent>,
    ConversionError,
>)
    requires
        old(byte_stream).offset() >= 2,
    ensures
        final(byte_stream).data() == old(byte_stream).data(),
        final(byte_stream).version() == old(byte_stream).version(),
        match NotifySkillUnitPacket::payload_decoding(
            old(byte_stream).data(),
            old(byte_stream).offset() as int,
        ) {
            Ok((packet, length)) => {
                &&& result matches Ok(list)
                &&& event_models(list@) == notify_skill_unit_events(packet)
                &&& final(byte_stream).offset() == old(byte_stream).offset() + length
            },
            Err(error) => {
                &&& result matches Err(failure)
                &&& failure == error
                &&& final(byte_stream).offset() == old(byte_stream).offset()
            },
        },
{
    let packet = NotifySkillUnitPacket::payload_from_bytes(byte_stream)?;
    let ghost model = packet.model();
    let mut events: Vec<NetworkEvent> = Vec::new();
    events.push(
        NetworkEvent::AddSkillUnit(
            packet.entity_id,
            packet.unit_id,
            Vector2 { x: packet.position.x as usize,
            y: packet.position.y as usize },
        ),
    );
    assert(event_models(events@) =~= notify_skill_unit_events(model));
    Ok(events)
}

/// Decodes the payload of a [`SkillUnitDisappearPacket`] at the cursor and converts the packet to
/// the events that it brings.
fn skill_unit_disappear_events_from(byte_stream: &mut ByteStream) -> (result: Result<
    Vec<NetworkEvent>,
    ConversionError,
>)
    requires
        old(byte_stream).offset() >= 2,
    ensures
        final(byte_stream).data() == old(byte_stream).data(),
        final(byte_stream).version() == old(byte_stream).version(),
        match SkillUnitDisappearPacket::payload_decoding(
            old(byte_stream).data(),
            old(byte_stream).offset() as int,
        ) {
            Ok((packet, length)) => {
                &&& result matches Ok(list)
                &&& event_models(list@) == skill_unit_disappear_events(packet)
                &&& final(byte_stream).offset() == old(byte_stream).offset() + length
            },
            Err(error) => {
                &&& result matches Err(failure)
                &&& failure == error
                &&& final(byte_stream).offset() == old(byte_stream).offset()
            },
        },
{
    let packet = SkillUnitDisappearPacket::payload_from_bytes(byte_stream)?;
    let ghost model = packet.model();
    let mut events: Vec<NetworkEvent> = Vec::new();
    events.push(NetworkEvent::RemoveSkillUnit(packet.entity_id));
    assert(event_models(events@) =~= skill_unit_disappear_events(model));
    Ok(events)
}

/// Decodes the payload of a frame about skills and combat and converts it to the events
/// that it brings. The cursor stands behind the header.
fn skill_events(header: u16, byte_stream: &mut ByteStream) -> (result: Option<
    Result<Vec<NetworkEvent>, ConversionError>,
>)
    requires
        old(byte_stream).offset() >= 2,
    ensures
        final(byte_stream).data() == old(byte_stream).data(),
        final(byte_stream).version() == old(byte_stream).version(),
        match skill_events_at(header, old(byte_stream).data(), old(byte_stream).offset() as int) {
            Some(Ok((events, length))) => {
                &&& result matches Some(Ok(list))
                &&& event_models(list@) == events
                &&& final(byte_stream).offset() == old(byte_stream).offset() + length
            },
            Some(Err(error)) => {
                &&& result matches Some(Err(failure))
                &&& failure == error
                &&& final(byte_stream).offset() == old(byte_stream).offset()
            },
            None => {
                &&& result is None
                &&& final(byte_stream).offset() == old(byte_stream).offset()
            },
        },
{
    proof {
        reveal(skill_events_at);
    }
    if header == UpdateSkillTreePacket::header() {
        Some(update_skill_tree_events_from(byte_stream))
    } else if header == UpdateHotkeysPacket::header() {
        Some(without_events::<UpdateHotkeysPacket>(byte_stream))
    } else if header == DisplaySkillCooldownPacket::header() {
        Some(without_events::<DisplaySkillCooldownPacket>(byte_stream))
    } else if header == DisplaySkillEffectAndDamagePacket::header() {
        Some(without_events::<DisplaySkillEffectAndDamagePacket>(byte_stream))
    } else if header == DisplaySkillEffectNoDamagePacket::header() {
        Some(display_skill_effect_no_damage_events_from(byte_stream))
    } else if header == DisplayPlayerHealEffect::header() {
        Some(without_events::<DisplayPlayerHealEffect>(byte_stream))
    } else if header == RequestPlayerAttackFailedPacket::header() {
        Some(without_events::<RequestPlayerAttackFailedPacket>(byte_stream))
    } else if header == DamagePacket::header() {
        Some(damage_events_from(byte_stream))
    } else if header == UseSkillSuccessPacket::header() {
        Some(without_events::<UseSkillSuccessPacket>(byte_stream))
    } else if header == ToUseSkillSuccessPacket::header() {
        Some(without_events::<ToUseSkillSuccessPacket>(byte_stream))
    } else if header == NotifySkillUnitPacket::header() {
        Some(notify_skill_unit_events_from(byte_stream))
    } else if header == SkillUnitDisappearPacket::header() {
        Some(skill_unit_disappear_events_from(byte_stream))
    } else if header == NotifyGroundSkillPacket::header() {
        Some(without_events::<NotifyGroundSkillPacket>(byte_stream))
    } else {
        None
    }
}

/// What a frame about the quests brings: the events, and the length of the payload
/// that begins at `at`. Nothing where no packet type of the group has the
/// header.
#[verifier::opaque]
pub open spec fn quest_events_at(header: u16, data: Seq<u8>, at: int) -> Option<
    Result<(Seq<NetworkEventModel>, nat), ConversionError>,
> {
    if header == QuestNotificationPacket1::packet_header() {
        Some(
            match QuestNotificationPacket1::payload_decoding(data, at) {
                Ok((_, length)) => Ok((Seq::empty(), length)),
                Err(error) => Err(error),
            },
        )
    } else if header == HuntingQuestNotificationPacket::packet_header() {
        Some(
            match HuntingQuestNotificationPacket::payload_decoding(data, at) {
                Ok((_, length)) => Ok((Seq::empty(), length)),
                Err(error) => Err(error),
            },
        )
    } else if header == HuntingQuestUpdateObjectivePacket::packet_header() {
        Some(
            match HuntingQuestUpdateObjectivePacket::payload_decoding(data, at) {
                Ok((_, length)) => Ok((Seq::empty(), length)),
                Err(error) => Err(error),
            },
        )
    } else if header == QuestRemovedPacket::packet_header() {
        Some(
            match QuestRemovedPacket::payload_decoding(data, at) {
                Ok((_, length)) => Ok((Seq::empty(), length)),
                Err(error) => Err(error),
            },
        )
    } else if header == QuestListPacket::packet_header() {
        Some(
            match QuestListPacket::payload_decoding(data, at) {
                Ok((_, length)) => Ok((Seq::empty(), length)),
                Err(error) => Err(error),
            },
        )
    } else if header == QuestEffectPacket::packet_header() {
        Some(
            match QuestEffectPacket::payload_decoding(data, at) {
                Ok((packet, length)) => Ok(
                    (
                        quest_effect_events(packet),
                        length,
                    ),
                ),
                Err(error) => Err(error),
            },
        )
    } else {
        None
    }
}

/// Decodes the payload of a [`QuestEffectPacket`] at the cursor and converts the packet to
/// the events that it brings.
fn quest_effect_events_from(byte_stream: &mut ByteStream) -> (result: Result<
    Vec<NetworkEvent>,
    ConversionError,
>)
    requires
        old(byte_stream).offset() >= 2,
    ensures
        final(byte_stream).data() == old(byte_stream).data(),
        final(byte_stream).version() == old(byte_stream).version(),
        match QuestEffectPacket::payload_decoding(
            old(byte_stream).data(),
            old(byte_stream).offset() as int,
        ) {
            Ok((packet, length)) => {
                &&& result matches Ok(list)
                &&& event_models(list@) == quest_effect_events(packet)
                &&& final(byte_stream).offset() == old(byte_stream).offset() + length
            },
            Err(error) => {
                &&& result matches Err(failure)
                &&& failure == error
                &&& final(byte_stream).offset() == old(byte_stream).offset()
            },
        },
{
    let packet = QuestEffectPacket::payload_from_bytes(byte_stream)?;
    let ghost model = packet.model();
    let mut events: Vec<NetworkEvent> = Vec::new();
    if packet.effect == QuestEffect::NoEffect {
        events.push(NetworkEvent::RemoveQuestEffect(packet.entity_id));
    } else {
        events.push(NetworkEvent::AddQuestEffect(packet));
    }
    assert(event_models(events@) =~= quest_effect_events(model));
    Ok(events)
}

/// Decodes the payload of a frame about the quests and converts it to the events
/// that it brings. The cursor stands behind the header.
fn quest_events(header: u16, byte_stream: &mut ByteStream) -> (result: Option<
    Result<Vec<NetworkEvent>, ConversionError>,
>)
    requires
        old(byte_stream).offset() >= 2,
    ensures
        final(byte_stream).data() == old(byte_stream).data(),
        final(byte_stream).version() == old(byte_stream).version(),
        match quest_events_at(header, old(byte_stream).data(), old(byte_stream).offset() as int) {
            Some(Ok((events, length))) => {
                &&& result matches Some(Ok(list))
                &&& event_models(list@) == events
                &&& final(byte_stream).offset() == old(byte_stream).offset() + length
            },
            Some(Err(error)) => {
                &&& result matches Some(Err(failure))
                &&& failure == error
                &&& final(byte_stream).offset() == old(byte_stream).offset()
            },
            None => {
                &&& result is None
                &&& final(byte_stream).offset() == old(byte_stream).offset()
            },
        },
{
    proof {
        reveal(quest_events_at);
    }
    if header == QuestNotificationPacket1::header() {
        Some(without_events::<QuestNotificationPacket1>(byte_stream))
    } else if header == HuntingQuestNotificationPacket::header() {
        Some(without_events::<HuntingQuestNotificationPacket>(byte_stream))
    } else if header == HuntingQuestUpdateObjectivePacket::header() {
        Some(without_events::<HuntingQuestUpdateObjectivePacket>(byte_stream))
    } else if header == QuestRemovedPacket::header() {
        Some(without_events::<QuestRemovedPacket>(byte_stream))
    } else if header == QuestListPacket::header() {
        Some(without_events::<QuestListPacket>(byte_stream))
    } else if header == QuestEffectPacket::header() {
        Some(quest_effect_events_from(byte_stream))
    } else {
        None
    }
}

/// What a frame about the dialogs brings: the events, and the length of the payload
/// that begins at `at`. Nothing where no packet type of the group has the
/// header.
#[verifier::opaque]
pub open spec fn dialog_events_at(header: u16, data: Seq<u8>, at: int) -> Option<
    Result<(Seq<NetworkEventModel>, nat), ConversionError>,
> {
    if header == NextButtonPacket::packet_header() {
        Some(
            match NextButtonPacket::payload_decoding(data, at) {
                Ok((packet, length)) => Ok(
                    (
                        next_button_events(packet),
                        length,
                    ),
                ),
                Err(error) => Err(error),
            },
        )
    } else if header == CloseButtonPacket::packet_header() {
        Some(
            match CloseButtonPacket::payload_decoding(data, at) {
                Ok((packet, length)) => Ok(
                    (
                        close_button_events(packet),
                        length,
                    ),
                ),
                Err(error) => Err(error),
            },
        )
    } else if header == DialogMenuPacket::packet_header() {
        Some(
            match DialogMenuPacket::payload_decoding(data, at) {
                Ok((packet, length)) => Ok(
                    (
                        dialog_menu_events(packet),
                        length,
                    ),
                ),
                Err(error) => Err(error),
            },
        )
    } else if header == NpcDialogPacket::packet_header() {
        Some(
            match NpcDialogPacket::payload_decoding(data, at) {
                Ok((packet, length)) => Ok(
                    (
                        npc_dialog_events(packet),
                        length,
                    ),
                ),
                Err(error) => Err(error),
            },
        )
    } else {
        None
    }
}

/// Decodes the payload of a [`NextButtonPacket`] at the cursor and converts the packet to
/// the events that it brings.
fn next_button_events_from(byte_stream: &mut ByteStream) -> (result: Result<
    Vec<NetworkEvent>,
    ConversionError,
>)
    requires
        old(byte_stream).offset() >= 2,
    ensures
        final(byte_stream).data() == old(byte_stream).data(),
        final(byte_stream).version() == old(byte_stream).version(),
        match NextButtonPacket::payload_decoding(
            old(byte_stream).data(),
            old(byte_stream).offset() as int,
        ) {
            Ok((packet, length)) => {
                &&& result matches Ok(list)
                &&& event_models(list@) == next_button_events(packet)
                &&& final(byte_stream).offset() == old(byte_stream).offset() + length
            },
            Err(error) => {
                &&& result matches Err(failure)
                &&& failure == error
                &&& final(byte_stream).offset() == old(byte_stream).offset()
            },
        },
{
    let packet = NextButtonPacket::payload_from_bytes(byte_stream)?;
    let ghost model = packet.model();
    let mut events: Vec<NetworkEvent> = Vec::new();
    events.push(NetworkEvent::AddNextButton);
    assert(event_models(events@) =~= next_button_events(model));
    Ok(events)
}

/// Decodes the payload of a [`CloseButtonPacket`] at the cursor and converts the packet to
/// the events that it brings.
fn close_button_events_from(byte_stream: &mut ByteStream) -> (result: Result<
    Vec<NetworkEvent>,
    ConversionError,
>)
    requires
        old(byte_stream).offset() >= 2,
    ensures
        final(byte_stream).data() == old(byte_stream).data(),
        final(byte_stream).version() == old(byte_stream).version(),
        match CloseButtonPacket::payload_decoding(
            old(byte_stream).data(),
            old(byte_stream).offset() as int,
        ) {
            Ok((packet, length)) => {
                &&& result matches Ok(list)
                &&& event_models(list@) == close_button_events(packet)
                &&& final(byte_stream).offset() == old(byte_stream).offset() + length
            },
            Err(error) => {
                &&& result matches Err(failure)
                &&& failure == error
                &&& final(byte_stream).offset() == old(byte_stream).offset()
            },
        },
{
    let packet = CloseButtonPacket::payload_from_bytes(byte_stream)?;
    let ghost model = packet.model();
    let mut events: Vec<NetworkEvent> = Vec::new();
    events.push(NetworkEvent::AddCloseButton);
    assert(event_models(events@) =~= close_button_events(model));
    Ok(events)
}

/// Decodes the payload of a [`DialogMenuPacket`] at the cursor and converts the packet to
/// the events that it brings.
fn dialog_menu_events_from(byte_stream: &mut ByteStream) -> (result: Result<
    Vec<NetworkEvent>,
    ConversionError,
>)
    requires
        old(byte_stream).offset() >= 2,
    ensures
        final(byte_stream).data() == old(byte_stream).data(),
        final(byte_stream).version() == old(byte_stream).version(),
        match DialogMenuPacket::payload_decoding(
            old(byte_stream).data(),
            old(byte_stream).offset() as int,
        ) {
            Ok((packet, length)) => {
                &&& result matches Ok(list)
                &&& event_models(list@) == dialog_menu_events(packet)
                &&& final(byte_stream).offset() == old(byte_stream).offset() + length
            },
            Err(error) => {
                &&& result matches Err(failure)
                &&& failure == error
                &&& final(byte_stream).offset() == old(byte_stream).offset()
            },
        },
{
    let packet = DialogMenuPacket::payload_from_bytes(byte_stream)?;
    let ghost model = packet.model();
    let mut events: Vec<NetworkEvent> = Vec::new();
    let choices = split_pieces(packet.message.as_str(), ':');
    events.push(NetworkEvent::AddChoiceButtons(choices));
    assert(event_models(events@) =~= dialog_menu_events(model));
    Ok(events)
}

/// Decodes the payload of a [`NpcDialogPacket`] at the cursor and converts the packet to
/// the events that it brings.
fn npc_dialog_events_from(byte_stream: &mut ByteStream) -> (result: Result<
    Vec<NetworkEvent>,
    ConversionError,
>)
    requires
        old(byte_stream).offset() >= 2,
    ensures
        final(byte_stream).data() == old(byte_stream).data(),
        final(byte_stream).version() == old(byte_stream).version(),
        match NpcDialogPacket::payload_decoding(
            old(byte_stream).data(),
            old(byte_stream).offset() as int,
        ) {
            Ok((packet, length)) => {
                &&& result matches Ok(list)
                &&& event_models(list@) == npc_dialog_events(packet)
                &&& final(byte_stream).offset() == old(byte_stream).offset() + length
            },
            Err(error) => {
                &&& result matches Err(failure)
                &&& failure == error
                &&& final(byte_stream).offset() == old(byte_stream).offset()
            },
        },
{
    let packet = NpcDialogPacket::payload_from_bytes(byte_stream)?;
    let ghost model = packet.model();
    let mut events: Vec<NetworkEvent> = Vec::new();
    events.push(NetworkEvent::OpenDialog(packet.text, packet.npc_id));
    assert(event_models(events@) =~= npc_dialog_events(model));
    Ok(events)
}

/// Decodes the payload of a frame about the dialogs and converts it to the events
/// that it brings. The cursor stands behind the header.
fn dialog_events(header: u16, byte_stream: &mut ByteStream) -> (result: Option<
    Result<Vec<NetworkEvent>, ConversionError>,
>)
    requires
        old(byte_stream).offset() >= 2,
    ensures
        final(byte_stream).data() == old(byte_stream).data(),
        final(byte_stream).version() == old(byte_stream).version(),
        match dialog_events_at(header, old(byte_stream).data(), old(byte_stream).offset() as int) {
            Some(Ok((events, length))) => {
                &&& result matches Some(Ok(list))
                &&& event_models(list@) == events
                &&& final(byte_stream).offset() == old(byte_stream).offset() + length
            },
            Some(Err(error)) => {
                &&& result matches Some(Err(failure))
                &&& failure == error
                &&& final(byte_stream).offset() == old(byte_stream).offset()
            },
            None => {
                &&& result is None
                &&& final(byte_stream).offset() == old(byte_stream).offset()
            },
        },
{
    proof {
        reveal(dialog_events_at);
    }
    if header == NextButtonPacket::header() {
        Some(next_button_events_from(byte_stream))
    } else if header == CloseButtonPacket::header() {
        Some(close_button_events_from(byte_stream))
    } else if header == DialogMenuPacket::header() {
        Some(dialog_menu_events_from(byte_stream))
    } else if header == NpcDialogPacket::header() {
        Some(npc_dialog_events_from(byte_stream))
    } else {
        None
    }
}

/// What a frame about friends, parties and clans brings: the events, and the length of the payload
/// that begins at `at`. Nothing where no packet type of the group has the
/// header.
#[verifier::opaque]
pub open spec fn friend_events_at(header: u16, data: Seq<u8>, at: int) -> Option<
    Result<(Seq<NetworkEventModel>, nat), ConversionError>,
> {
    if header == FriendOnlineStatusPacket::packet_header() {
        Some(
            match FriendOnlineStatusPacket::payload_decoding(data, at) {
                Ok((_, length)) => Ok((Seq::empty(), length)),
                Err(error) => Err(error),
            },
        )
    } else if header == FriendRequestPacket::packet_header() {
        Some(
            match FriendRequestPacket::payload_decoding(data, at) {
                Ok((packet, length)) => Ok(
                    (
                        friend_request_events(packet),
                        length,
                    ),
                ),
                Err(error) => Err(error),
            },
        )
    } else if header == PartyInvitePacket::packet_header() {
        Some(
            match PartyInvitePacket::payload_decoding(data, at) {
                Ok((_, length)) => Ok((Seq::empty(), length)),
                Err(error) => Err(error),
            },
        )
    } else if header == ReputationPacket::packet_header() {
        Some(
            match ReputationPacket::payload_decoding(data, at) {
                Ok((_, length)) => Ok((Seq::empty(), length)),
                Err(error) => Err(error),
            },
        )
    } else if header == ClanInfoPacket::packet_header() {
        Some(
            match ClanInfoPacket::payload_decoding(data, at) {
                Ok((_, length)) => Ok((Seq::empty(), length)),
                Err(error) => Err(error),
            },
        )
    } else if header == ClanOnlineCountPacket::packet_header() {
        Some(
            match ClanOnlineCountPacket::payload_decoding(data, at) {
                Ok((_, length)) => Ok((Seq::empty(), length)),
                Err(error) => Err(error),
            },
        )
    } else {
        None
    }
}

/// Decodes the payload of a [`FriendRequestPacket`] at the cursor and converts the packet to
/// the events that it brings.
fn friend_request_events_from(byte_stream: &mut ByteStream) -> (result: Result<
    Vec<NetworkEvent>,
    ConversionError,
>)
    requires
        old(byte_stream).offset() >= 2,
    ensures
        final(byte_stream).data() == old(byte_stream).data(),
        final(byte_stream).version() == old(byte_stream).version(),
        match FriendRequestPacket::payload_decoding(
            old(byte_stream).data(),
            old(byte_stream).offset() as int,
        ) {
            Ok((packet, length)) => {
                &&& result matches Ok(list)
                &&& event_models(list@) == friend_request_events(packet)
                &&& final(byte_stream).offset() == old(byte_stream).offset() + length
            },
            Err(error) => {
                &&& result matches Err(failure)
                &&& failure == error
                &&& final(byte_stream).offset() == old(byte_stream).offset()
            },
        },
{
    let packet = FriendRequestPacket::payload_from_bytes(byte_stream)?;
    let ghost model = packet.model();
    let mut events: Vec<NetworkEvent> = Vec::new();
    events.push(NetworkEvent::FriendRequest(packet.friend));
    assert(event_models(events@) =~= friend_request_events(model));
    Ok(events)
}

/// Decodes the payload of a frame about friends, parties and clans and converts it to the events
/// that it brings. The cursor stands behind the header.
fn friend_events(header: u16, byte_stream: &mut ByteStream) -> (result: Option<
    Result<Vec<NetworkEvent>, ConversionError>,
>)
    requires
        old(byte_stream).offset() >= 2,
    ensures
        final(byte_stream).data() == old(byte_stream).data(),
        final(byte_stream).version() == old(byte_stream).version(),
        match friend_events_at(header, old(byte_stream).data(), old(byte_stream).offset() as int) {
            Some(Ok((events, length))) => {
                &&& result matches Some(Ok(list))
                &&& event_models(list@) == events
                &&& final(byte_stream).offset() == old(byte_stream).offset() + length
            },
            Some(Err(error)) => {
                &&& result matches Some(Err(failure))
                &&& failure == error
                &&& final(byte_stream).offset() == old(byte_stream).offset()
            },
            None => {
                &&& result is None
                &&& final(byte_stream).offset() == old(byte_stream).offset()
            },
        },
{
    proof {
        reveal(friend_events_at);
    }
    if header == FriendOnlineStatusPacket::header() {
        Some(without_events::<FriendOnlineStatusPacket>(byte_stream))
    } else if header == FriendRequestPacket::header() {
        Some(friend_request_events_from(byte_stream))
    } else if header == PartyInvitePacket::header() {
        Some(without_events::<PartyInvitePacket>(byte_stream))
    } else if header == ReputationPacket::header() {
        Some(without_events::<ReputationPacket>(byte_stream))
    } else if header == ClanInfoPacket::header() {
        Some(without_events::<ClanInfoPacket>(byte_stream))
    } else if header == ClanOnlineCountPacket::header() {
        Some(without_events::<ClanOnlineCountPacket>(byte_stream))
    } else {
        None
    }
}

impl Dispatched for BroadcastMessagePacket {
    open spec fn brought(packet: BroadcastMessagePacketModel, friends: Seq<FriendModel>) -> (
        Seq<NetworkEventModel>,
        Seq<FriendModel>,
    ) {
        (broadcast_message_events(packet), friends)
    }

    proof fn lemma_dispatched(data: Seq<u8>, at: int, friends: Seq<FriendModel>) {
        reveal(chat_events_at);
    }
}

impl Dispatched for Broadcast2MessagePacket {
    open spec fn brought(packet: Broadcast2MessagePacketModel, friends: Seq<FriendModel>) -> (
        Seq<NetworkEventModel>,
        Seq<FriendModel>,
    ) {
        (broadcast2_message_events(packet), friends)
    }

    proof fn lemma_dispatched(data: Seq<u8>, at: int, friends: Seq<FriendModel>) {
        reveal(chat_events_at);
    }
}

impl Dispatched for OverheadMessagePacket {
    open spec fn brought(packet: OverheadMessagePacketModel, friends: Seq<FriendModel>) -> (
        Seq<NetworkEventModel>,
        Seq<FriendModel>,
    ) {
        (overhead_message_events(packet), friends)
    }

    proof fn lemma_dispatched(data: Seq<u8>, at: int, friends: Seq<FriendModel>) {
        reveal(chat_events_at);
    }
}

impl Dispatched for ServerMessagePacket {
    open spec fn brought(packet: ServerMessagePacketModel, friends: Seq<FriendModel>) -> (
        Seq<NetworkEventModel>,
        Seq<FriendModel>,
    ) {
        (server_message_events(packet), friends)
    }

    proof fn lemma_dispatched(data: Seq<u8>, at: int, friends: Seq<FriendModel>) {
        reveal(chat_events_at);
    }
}

impl Dispatched for EntityMessagePacket {
    open spec fn brought(packet: EntityMessagePacketModel, friends: Seq<FriendModel>) -> (
        Seq<NetworkEventModel>,
        Seq<FriendModel>,
    ) {
        (entity_message_events(packet), friends)
    }

    proof fn lemma_dispatched(data: Seq<u8>, at: int, friends: Seq<FriendModel>) {
        reveal(chat_events_at);
    }
}

impl Dispatched for DisplayEmotionPacket {
    open spec fn brought(packet: DisplayEmotionPacket, friends: Seq<FriendModel>) -> (
        Seq<NetworkEventModel>,
        Seq<FriendModel>,
    ) {
        (Seq::empty(), friends)
    }

    proof fn lemma_dispatched(data: Seq<u8>, at: int, friends: Seq<FriendModel>) {
        reveal(chat_events_at);
        reveal(entity_events_at);
    }
}

impl Dispatched for EntityMovePacket {
    open spec fn brought(packet: EntityMovePacket, friends: Seq<FriendModel>) -> (
        Seq<NetworkEventModel>,
        Seq<FriendModel>,
    ) {
        (entity_move_events(packet), friends)
    }

    proof fn lemma_dispatched(data: Seq<u8>, at: int, friends: Seq<FriendModel>) {
        reveal(chat_events_at);
        reveal(entity_events_at);
    }
}

impl Dispatched for EntityStopMovePacket {
    open spec fn brought(packet: EntityStopMovePacket, friends: Seq<FriendModel>) -> (
        Seq<NetworkEventModel>,
        Seq<FriendModel>,
    ) {
        (Seq::empty(), friends)
    }

    proof fn lemma_dispatched(data: Seq<u8>, at: int, friends: Seq<FriendModel>) {
        reveal(chat_events_at);
        reveal(entity_events_at);
    }
}

impl Dispatched for EntityAppearedPacket {
    open spec fn brought(packet: EntityAppearedPacketModel, friends: Seq<FriendModel>) -> (
        Seq<NetworkEventModel>,
        Seq<FriendModel>,
    ) {
        (entity_appeared_events(packet), friends)
    }

    proof fn lemma_dispatched(data: Seq<u8>, at: int, friends: Seq<FriendModel>) {
        reveal(chat_events_at);
        reveal(entity_events_at);
    }
}

impl Dispatched for EntityAppeared2Packet {
    open spec fn brought(packet: EntityAppeared2PacketModel, friends: Seq<FriendModel>) -> (
        Seq<NetworkEventModel>,
        Seq<FriendModel>,
    ) {
        (entity_appeared2_events(packet), friends)
    }

    proof fn lemma_dispatched(data: Seq<u8>, at: int, friends: Seq<FriendModel>) {
        reveal(chat_events_at);
        reveal(entity_events_at);
    }
}

impl Dispatched for MovingEntityAppearedPacket {
    open spec fn brought(packet: MovingEntityAppearedPacketModel, friends: Seq<FriendModel>) -> (
        Seq<NetworkEventModel>,
        Seq<FriendModel>,
    ) {
        (moving_entity_appeared_events(packet), friends)
    }

    proof fn lemma_dispatched(data: Seq<u8>, at: int, friends: Seq<FriendModel>) {
        reveal(chat_events_at);
        reveal(entity_events_at);
    }
}

impl Dispatched for EntityDisappearedPacket {
    open spec fn brought(packet: EntityDisappearedPacket, friends: Seq<FriendModel>) -> (
        Seq<NetworkEventModel>,
        Seq<FriendModel>,
    ) {
        (entity_disappeared_events(packet), friends)
    }

    proof fn lemma_dispatched(data: Seq<u8>, at: int, friends: Seq<FriendModel>) {
        reveal(chat_events_at);
        reveal(entity_events_at);
    }
}

impl Dispatched for SpriteChangePacket {
    open spec fn brought(packet: SpriteChangePacket, friends: Seq<FriendModel>) -> (
        Seq<NetworkEventModel>,
        Seq<FriendModel>,
    ) {
        (sprite_change_events(packet), friends)
    }

    proof fn lemma_dispatched(data: Seq<u8>, at: int, friends: Seq<FriendModel>) {
        reveal(chat_events_at);
        reveal(entity_events_at);
    }
}

impl Dispatched for DisplaySpecialEffectPacket {
    open spec fn brought(packet: DisplaySpecialEffectPacket, friends: Seq<FriendModel>) -> (
        Seq<NetworkEventModel>,
        Seq<FriendModel>,
    ) {
        (Seq::empty(), friends)
    }

    proof fn lemma_dispatched(data: Seq<u8>, at: int, friends: Seq<FriendModel>) {
        reveal(chat_events_at);
        reveal(entity_events_at);
    }
}

impl Dispatched for VisualEffectPacket {
    open spec fn brought(packet: VisualEffectPacket, friends: Seq<FriendModel>) -> (
        Seq<NetworkEventModel>,
        Seq<FriendModel>,
    ) {
        (visual_effect_events(packet), friends)
    }

    proof fn lemma_dispatched(data: Seq<u8>, at: int, friends: Seq<FriendModel>) {
        reveal(chat_events_at);
        reveal(entity_events_at);
    }
}

impl Dispatched for StateChangePacket {
    open spec fn brought(packet: StateChangePacket, friends: Seq<FriendModel>) -> (
        Seq<NetworkEventModel>,
        Seq<FriendModel>,
    ) {
        (Seq::empty(), friends)
    }

    proof fn lemma_dispatched(data: Seq<u8>, at: int, friends: Seq<FriendModel>) {
        reveal(chat_events_at);
        reveal(entity_events_at);
    }
}

impl Dispatched for RequestPlayerDetailsSuccessPacket {
    open spec fn brought(
        packet: RequestPlayerDetailsSuccessPacketModel,
        friends: Seq<FriendModel>,
    ) -> (
        Seq<NetworkEventModel>,
        Seq<FriendModel>,
    ) {
        (request_player_details_success_events(packet), friends)
    }

    proof fn lemma_dispatched(data: Seq<u8>, at: int, friends: Seq<FriendModel>) {
        reveal(chat_events_at);
        reveal(entity_events_at);
    }
}

impl Dispatched for RequestEntityDetailsSuccessPacket {
    open spec fn brought(
        packet: RequestEntityDetailsSuccessPacketModel,
        friends: Seq<FriendModel>,
    ) -> (
        Seq<NetworkEventModel>,
        Seq<FriendModel>,
    ) {
        (request_entity_details_success_events(packet), friends)
    }

    proof fn lemma_dispatched(data: Seq<u8>, at: int, friends: Seq<FriendModel>) {
        reveal(chat_events_at);
        reveal(entity_events_at);
    }
}

impl Dispatched for UpdateEntityHealthPointsPacket {
    open spec fn brought(packet: UpdateEntityHealthPointsPacket, friends: Seq<FriendModel>) -> (
        Seq<NetworkEventModel>,
        Seq<FriendModel>,
    ) {
        (update_entity_health_points_events(packet), friends)
    }

    proof fn lemma_dispatched(data: Seq<u8>, at: int, friends: Seq<FriendModel>) {
        reveal(chat_events_at);
        reveal(entity_events_at);
    }
}

impl Dispatched for UpdateStatusPacket {
    open spec fn brought(packet: UpdateStatusPacket, friends: Seq<FriendModel>) -> (
        Seq<NetworkEventModel>,
        Seq<FriendModel>,
    ) {
        (update_status_events(packet), friends)
    }

    proof fn lemma_dispatched(data: Seq<u8>, at: int, friends: Seq<FriendModel>) {
        reveal(chat_events_at);
        reveal(entity_events_at);
        reveal(status_events_at);
    }
}

impl Dispatched for UpdateStatusPacket1 {
    open spec fn brought(packet: UpdateStatusPacket1, friends: Seq<FriendModel>) -> (
        Seq<NetworkEventModel>,
        Seq<FriendModel>,
    ) {
        (update_status_packet1_events(packet), friends)
    }

    proof fn lemma_dispatched(data: Seq<u8>, at: int, friends: Seq<FriendModel>) {
        reveal(chat_events_at);
        reveal(entity_events_at);
        reveal(status_events_at);
    }
}

impl Dispatched for UpdateStatusPacket2 {
    open spec fn brought(packet: UpdateStatusPacket2, friends: Seq<FriendModel>) -> (
        Seq<NetworkEventModel>,
        Seq<FriendModel>,
    ) {
        (update_status_packet2_events(packet), friends)
    }

    proof fn lemma_dispatched(data: Seq<u8>, at: int, friends: Seq<FriendModel>) {
        reveal(chat_events_at);
        reveal(entity_events_at);
        reveal(status_events_at);
    }
}

impl Dispatched for UpdateStatusPacket3 {
    open spec fn brought(packet: UpdateStatusPacket3, friends: Seq<FriendModel>) -> (
        Seq<NetworkEventModel>,
        Seq<FriendModel>,
    ) {
        (update_status_packet3_events(packet), friends)
    }

    proof fn lemma_dispatched(data: Seq<u8>, at: int, friends: Seq<FriendModel>) {
        reveal(chat_events_at);
        reveal(entity_events_at);
        reveal(status_events_at);
    }
}

impl Dispatched for UpdateAttackRangePacket {
    open spec fn brought(packet: UpdateAttackRangePacket, friends: Seq<FriendModel>) -> (
        Seq<NetworkEventModel>,
        Seq<FriendModel>,
    ) {
        (Seq::empty(), friends)
    }

    proof fn lemma_dispatched(data: Seq<u8>, at: int, friends: Seq<FriendModel>) {
        reveal(chat_events_at);
        reveal(entity_events_at);
        reveal(status_events_at);
    }
}

impl Dispatched for AchievementUpdatePacket {
    open spec fn brought(packet: AchievementUpdatePacket, friends: Seq<FriendModel>) -> (
        Seq<NetworkEventModel>,
        Seq<FriendModel>,
    ) {
        (Seq::empty(), friends)
    }

    proof fn lemma_dispatched(data: Seq<u8>, at: int, friends: Seq<FriendModel>) {
        reveal(chat_events_at);
        reveal(entity_events_at);
        reveal(status_events_at);
    }
}

impl Dispatched for AchievementListPacket {
    open spec fn brought(packet: AchievementListPacketModel, friends: Seq<FriendModel>) -> (
        Seq<NetworkEventModel>,
        Seq<FriendModel>,
    ) {
        (Seq::empty(), friends)
    }

    proof fn lemma_dispatched(data: Seq<u8>, at: int, friends: Seq<FriendModel>) {
        reveal(chat_events_at);
        reveal(entity_events_at);
        reveal(status_events_at);
    }
}

impl Dispatched for CriticalWeightUpdatePacket {
    open spec fn brought(packet: CriticalWeightUpdatePacket, friends: Seq<FriendModel>) -> (
        Seq<NetworkEventModel>,
        Seq<FriendModel>,
    ) {
        (Seq::empty(), friends)
    }

    proof fn lemma_dispatched(data: Seq<u8>, at: int, friends: Seq<FriendModel>) {
        reveal(chat_events_at);
        reveal(entity_events_at);
        reveal(status_events_at);
    }
}

impl Dispatched for InitialStatusPacket {
    open spec fn brought(packet: InitialStatusPacket, friends: Seq<FriendModel>) -> (
        Seq<NetworkEventModel>,
        Seq<FriendModel>,
    ) {
        (Seq::empty(), friends)
    }

    proof fn lemma_dispatched(data: Seq<u8>, at: int, friends: Seq<FriendModel>) {
        reveal(chat_events_at);
        reveal(entity_events_at);
        reveal(status_events_at);
    }
}

impl Dispatched for StatusChangePacket {
    open spec fn brought(packet: StatusChangePacket, friends: Seq<FriendModel>) -> (
        Seq<NetworkEventModel>,
        Seq<FriendModel>,
    ) {
        (Seq::empty(), friends)
    }

    proof fn lemma_dispatched(data: Seq<u8>, at: int, friends: Seq<FriendModel>) {
        reveal(chat_events_at);
        reveal(entity_events_at);
        reveal(status_events_at);
    }
}

impl Dispatched for DisplayGainedExperiencePacket {
    open spec fn brought(packet: DisplayGainedExperiencePacket, friends: Seq<FriendModel>) -> (
        Seq<NetworkEventModel>,
        Seq<FriendModel>,
    ) {
        (Seq::empty(), friends)
    }

    proof fn lemma_dispatched(data: Seq<u8>, at: int, friends: Seq<FriendModel>) {
        reveal(chat_events_at);
        reveal(entity_events_at);
        reveal(status_events_at);
    }
}

impl Dispatched for StatusChangeSequencePacket {
    open spec fn brought(packet: StatusChangeSequencePacket, friends: Seq<FriendModel>) -> (
        Seq<NetworkEventModel>,
        Seq<FriendModel>,
    ) {
        (Seq::empty(), friends)
    }

    proof fn lemma_dispatched(data: Seq<u8>, at: int, friends: Seq<FriendModel>) {
        reveal(chat_events_at);
        reveal(entity_events_at);
        reveal(status_events_at);
    }
}

impl Dispatched for PlayerMovePacket {
    open spec fn brought(packet: PlayerMovePacket, friends: Seq<FriendModel>) -> (
        Seq<NetworkEventModel>,
        Seq<FriendModel>,
    ) {
        (player_move_events(packet), friends)
    }

    proof fn lemma_dispatched(data: Seq<u8>, at: int, friends: Seq<FriendModel>) {
        reveal(chat_events_at);
        reveal(entity_events_at);
        reveal(status_events_at);
        reveal(map_events_at);
    }
}

impl Dispatched for ChangeMapPacket {
    open spec fn brought(packet: ChangeMapPacketModel, friends: Seq<FriendModel>) -> (
        Seq<NetworkEventModel>,
        Seq<FriendModel>,
    ) {
        (change_map_events(packet), friends)
    }

    proof fn lemma_dispatched(data: Seq<u8>, at: int, friends: Seq<FriendModel>) {
        reveal(chat_events_at);
        reveal(entity_events_at);
        reveal(status_events_at);
        reveal(map_events_at);
    }
}

impl Dispatched for NewMailStatusPacket {
    open spec fn brought(packet: NewMailStatusPacket, friends: Seq<FriendModel>) -> (
        Seq<NetworkEventModel>,
        Seq<FriendModel>,
    ) {
        (Seq::empty(), friends)
    }

    proof fn lemma_dispatched(data: Seq<u8>, at: int, friends: Seq<FriendModel>) {
        reveal(chat_events_at);
        reveal(entity_events_at);
        reveal(status_events_at);
        reveal(map_events_at);
    }
}

impl Dispatched for MapTypePacket {
    open spec fn brought(packet: MapTypePacket, friends: Seq<FriendModel>) -> (
        Seq<NetworkEventModel>,
        Seq<FriendModel>,
    ) {
        (Seq::empty(), friends)
    }

    proof fn lemma_dispatched(data: Seq<u8>, at: int, friends: Seq<FriendModel>) {
        reveal(chat_events_at);
        reveal(entity_events_at);
        reveal(status_events_at);
        reveal(map_events_at);
    }
}

impl Dispatched for UpdatePartyInvitationStatePacket {
    open spec fn brought(packet: UpdatePartyInvitationStatePacket, friends: Seq<FriendModel>) -> (
        Seq<NetworkEventModel>,
        Seq<FriendModel>,
    ) {
        (Seq::empty(), friends)
    }

    proof fn lemma_dispatched(data: Seq<u8>, at: int, friends: Seq<FriendModel>) {
        reveal(chat_events_at);
        reveal(entity_events_at);
        reveal(status_events_at);
        reveal(map_events_at);
    }
}

impl Dispatched for UpdateShowEquipPacket {
    open spec fn brought(packet: UpdateShowEquipPacket, friends: Seq<FriendModel>) -> (
        Seq<NetworkEventModel>,
        Seq<FriendModel>,
    ) {
        (Seq::empty(), friends)
    }

    proof fn lemma_dispatched(data: Seq<u8>, at: int, friends: Seq<FriendModel>) {
        reveal(chat_events_at);
        reveal(entity_events_at);
        reveal(status_events_at);
        reveal(map_events_at);
    }
}

impl Dispatched for UpdateConfigurationPacket {
    open spec fn brought(packet: UpdateConfigurationPacket, friends: Seq<FriendModel>) -> (
        Seq<NetworkEventModel>,
        Seq<FriendModel>,
    ) {
        (Seq::empty(), friends)
    }

    proof fn lemma_dispatched(data: Seq<u8>, at: int, friends: Seq<FriendModel>) {
        reveal(chat_events_at);
        reveal(entity_events_at);
        reveal(status_events_at);
        reveal(map_events_at);
    }
}

impl Dispatched for NavigateToMonsterPacket {
    open spec fn brought(packet: NavigateToMonsterPacketModel, friends: Seq<FriendModel>) -> (
        Seq<NetworkEventModel>,
        Seq<FriendModel>,
    ) {
        (Seq::empty(), friends)
    }

    proof fn lemma_dispatched(data: Seq<u8>, at: int, friends: Seq<FriendModel>) {
        reveal(chat_events_at);
        reveal(entity_events_at);
        reveal(status_events_at);
        reveal(map_events_at);
    }
}

impl Dispatched for MarkMinimapPositionPacket {
    open spec fn brought(packet: MarkMinimapPositionPacket, friends: Seq<FriendModel>) -> (
        Seq<NetworkEventModel>,
        Seq<FriendModel>,
    ) {
        (Seq::empty(), friends)
    }

    proof fn lemma_dispatched(data: Seq<u8>, at: int, friends: Seq<FriendModel>) {
        reveal(chat_events_at);
        reveal(entity_events_at);
        reveal(status_events_at);
        reveal(map_events_at);
    }
}

impl Dispatched for DisplayImagePacket {
    open spec fn brought(packet: DisplayImagePacketModel, friends: Seq<FriendModel>) -> (
        Seq<NetworkEventModel>,
        Seq<FriendModel>,
    ) {
        (Seq::empty(), friends)
    }

    proof fn lemma_dispatched(data: Seq<u8>, at: int, friends: Seq<FriendModel>) {
        reveal(chat_events_at);
        reveal(entity_events_at);
        reveal(status_events_at);
        reveal(map_events_at);
    }
}

impl Dispatched for ServerTickPacket {
    open spec fn brought(packet: ServerTickPacket, friends: Seq<FriendModel>) -> (
        Seq<NetworkEventModel>,
        Seq<FriendModel>,
    ) {
        (server_tick_events(packet), friends)
    }

    proof fn lemma_dispatched(data: Seq<u8>, at: int, friends: Seq<FriendModel>) {
        reveal(chat_events_at);
        reveal(entity_events_at);
        reveal(status_events_at);
        reveal(map_events_at);
    }
}

impl Dispatched for Packet8302 {
    open spec fn brought(packet: Packet8302, friends: Seq<FriendModel>) -> (
        Seq<NetworkEventModel>,
        Seq<FriendModel>,
    ) {
        (Seq::empty(), friends)
    }

    proof fn lemma_dispatched(data: Seq<u8>, at: int, friends: Seq<FriendModel>) {
        reveal(chat_events_at);
        reveal(entity_events_at);
        reveal(status_events_at);
        reveal(map_events_at);
    }
}

impl Dispatched for Packet180b {
    open spec fn brought(packet: Packet180b, friends: Seq<FriendModel>) -> (
        Seq<NetworkEventModel>,
        Seq<FriendModel>,
    ) {
        (Seq::empty(), friends)
    }

    proof fn lemma_dispatched(data: Seq<u8>, at: int, friends: Seq<FriendModel>) {
        reveal(chat_events_at);
        reveal(entity_events_at);
        reveal(status_events_at);
        reveal(map_events_at);
    }
}

impl Dispatched for MapServerLoginSuccessPacket {
    open spec fn brought(packet: MapServerLoginSuccessPacket, friends: Seq<FriendModel>) -> (
        Seq<NetworkEventModel>,
        Seq<FriendModel>,
    ) {
        (map_server_login_success_events(packet), friends)
    }

    proof fn lemma_dispatched(data: Seq<u8>, at: int, friends: Seq<FriendModel>) {
        reveal(chat_events_at);
        reveal(entity_events_at);
        reveal(status_events_at);
        reveal(map_events_at);
    }
}

impl Dispatched for RestartResponsePacket {
    open spec fn brought(packet: RestartResponsePacket, friends: Seq<FriendModel>) -> (
        Seq<NetworkEventModel>,
        Seq<FriendModel>,
    ) {
        (restart_response_events(packet), friends)
    }

    proof fn lemma_dispatched(data: Seq<u8>, at: int, friends: Seq<FriendModel>) {
        reveal(chat_events_at);
        reveal(entity_events_at);
        reveal(status_events_at);
        reveal(map_events_at);
    }
}

impl Dispatched for DisconnectResponsePacket {
    open spec fn brought(packet: DisconnectResponsePacket, friends: Seq<FriendModel>) -> (
        Seq<NetworkEventModel>,
        Seq<FriendModel>,
    ) {
        (disconnect_response_events(packet), friends)
    }

    proof fn lemma_dispatched(data: Seq<u8>, at: int, friends: Seq<FriendModel>) {
        reveal(chat_events_at);
        reveal(entity_events_at);
        reveal(status_events_at);
        reveal(map_events_at);
    }
}

impl Dispatched for ChangeMapCellPacket {
    open spec fn brought(packet: ChangeMapCellPacketModel, friends: Seq<FriendModel>) -> (
        Seq<NetworkEventModel>,
        Seq<FriendModel>,
    ) {
        (Seq::empty(), friends)
    }

    proof fn lemma_dispatched(data: Seq<u8>, at: int, friends: Seq<FriendModel>) {
        reveal(chat_events_at);
        reveal(entity_events_at);
        reveal(status_events_at);
        reveal(map_events_at);
    }
}

impl Dispatched for EquippableSwitchItemListPacket {
    open spec fn brought(
        packet: EquippableSwitchItemListPacketModel,
        friends: Seq<FriendModel>,
    ) -> (
        Seq<NetworkEventModel>,
        Seq<FriendModel>,
    ) {
        (Seq::empty(), friends)
    }

    proof fn lemma_dispatched(data: Seq<u8>, at: int, friends: Seq<FriendModel>) {
        reveal(chat_events_at);
        reveal(entity_events_at);
        reveal(status_events_at);
        reveal(map_events_at);
        reveal(inventory_events_at);
    }
}

impl Dispatched for ItemPickupPacket {
    open spec fn brought(packet: ItemPickupPacketModel, friends: Seq<FriendModel>) -> (
        Seq<NetworkEventModel>,
        Seq<FriendModel>,
    ) {
        (item_pickup_events(packet), friends)
    }

    proof fn lemma_dispatched(data: Seq<u8>, at: int, friends: Seq<FriendModel>) {
        reveal(chat_events_at);
        reveal(entity_events_at);
        reveal(status_events_at);
        reveal(map_events_at);
        reveal(inventory_events_at);
    }
}

impl Dispatched for RemoveItemFromInventoryPacket {
    open spec fn brought(packet: RemoveItemFromInventoryPacket, friends: Seq<FriendModel>) -> (
        Seq<NetworkEventModel>,
        Seq<FriendModel>,
    ) {
        (Seq::empty(), friends)
    }

    proof fn lemma_dispatched(data: Seq<u8>, at: int, friends: Seq<FriendModel>) {
        reveal(chat_events_at);
        reveal(entity_events_at);
        reveal(status_events_at);
        reveal(map_events_at);
        reveal(inventory_events_at);
    }
}

impl Dispatched for RequestEquipItemStatusPacket {
    open spec fn brought(packet: RequestEquipItemStatusPacket, friends: Seq<FriendModel>) -> (
        Seq<NetworkEventModel>,
        Seq<FriendModel>,
    ) {
        (request_equip_item_status_events(packet), friends)
    }

    proof fn lemma_dispatched(data: Seq<u8>, at: int, friends: Seq<FriendModel>) {
        reveal(chat_events_at);
        reveal(entity_events_at);
        reveal(status_events_at);
        reveal(map_events_at);
        reveal(inventory_events_at);
    }
}

impl Dispatched for RequestUnequipItemStatusPacket {
    open spec fn brought(packet: RequestUnequipItemStatusPacket, friends: Seq<FriendModel>) -> (
        Seq<NetworkEventModel>,
        Seq<FriendModel>,
    ) {
        (request_unequip_item_status_events(packet), friends)
    }

    proof fn lemma_dispatched(data: Seq<u8>, at: int, friends: Seq<FriendModel>) {
        reveal(chat_events_at);
        reveal(entity_events_at);
        reveal(status_events_at);
        reveal(map_events_at);
        reveal(inventory_events_at);
    }
}

impl Dispatched for UpdateSkillTreePacket {
    open spec fn brought(packet: UpdateSkillTreePacketModel, friends: Seq<FriendModel>) -> (
        Seq<NetworkEventModel>,
        Seq<FriendModel>,
    ) {
        (update_skill_tree_events(packet), friends)
    }

    proof fn lemma_dispatched(data: Seq<u8>, at: int, friends: Seq<FriendModel>) {
        reveal(chat_events_at);
        reveal(entity_events_at);
        reveal(status_events_at);
        reveal(map_events_at);
        reveal(inventory_events_at);
        reveal(inventory_sequence_at);
        reveal(skill_events_at);
    }
}

impl Dispatched for UpdateHotkeysPacket {
    open spec fn brought(packet: UpdateHotkeysPacketModel, friends: Seq<FriendModel>) -> (
        Seq<NetworkEventModel>,
        Seq<FriendModel>,
    ) {
        (Seq::empty(), friends)
    }

    proof fn lemma_dispatched(data: Seq<u8>, at: int, friends: Seq<FriendModel>) {
        reveal(chat_events_at);
        reveal(entity_events_at);
        reveal(status_events_at);
        reveal(map_events_at);
        reveal(inventory_events_at);
        reveal(inventory_sequence_at);
        reveal(skill_events_at);
    }
}

impl Dispatched for DisplaySkillCooldownPacket {
    open spec fn brought(packet: DisplaySkillCooldownPacket, friends: Seq<FriendModel>) -> (
        Seq<NetworkEventModel>,
        Seq<FriendModel>,
    ) {
        (Seq::empty(), friends)
    }

    proof fn lemma_dispatched(data: Seq<u8>, at: int, friends: Seq<FriendModel>) {
        reveal(chat_events_at);
        reveal(entity_events_at);
        reveal(status_events_at);
        reveal(map_events_at);
        reveal(inventory_events_at);
        reveal(inventory_sequence_at);
        reveal(skill_events_at);
    }
}

impl Dispatched for DisplaySkillEffectAndDamagePacket {
    open spec fn brought(packet: DisplaySkillEffectAndDamagePacket, friends: Seq<FriendModel>) -> (
        Seq<NetworkEventModel>,
        Seq<FriendModel>,
    ) {
        (Seq::empty(), friends)
    }

    proof fn lemma_dispatched(data: Seq<u8>, at: int, friends: Seq<FriendModel>) {
        reveal(chat_events_at);
        reveal(entity_events_at);
        reveal(status_events_at);
        reveal(map_events_at);
        reveal(inventory_events_at);
        reveal(inventory_sequence_at);
        reveal(skill_events_at);
    }
}

impl Dispatched for DisplaySkillEffectNoDamagePacket {
    open spec fn brought(packet: DisplaySkillEffectNoDamagePacket, friends: Seq<FriendModel>) -> (
        Seq<NetworkEventModel>,
        Seq<FriendModel>,
    ) {
        (display_skill_effect_no_damage_events(packet), friends)
    }

    proof fn lemma_dispatched(data: Seq<u8>, at: int, friends: Seq<FriendModel>) {
        reveal(chat_events_at);
        reveal(entity_events_at);
        reveal(status_events_at);
        reveal(map_events_at);
        reveal(inventory_events_at);
        reveal(inventory_sequence_at);
        reveal(skill_events_at);
    }
}

impl Dispatched for DisplayPlayerHealEffect {
    open spec fn brought(packet: DisplayPlayerHealEffect, friends: Seq<FriendModel>) -> (
        Seq<NetworkEventModel>,
        Seq<FriendModel>,
    ) {
        (Seq::empty(), friends)
    }

    proof fn lemma_dispatched(data: Seq<u8>, at: int, friends: Seq<FriendModel>) {
        reveal(chat_events_at);
        reveal(entity_events_at);
        reveal(status_events_at);
        reveal(map_events_at);
        reveal(inventory_events_at);
        reveal(inventory_sequence_at);
        reveal(skill_events_at);
    }
}

impl Dispatched for RequestPlayerAttackFailedPacket {
    open spec fn brought(packet: RequestPlayerAttackFailedPacket, friends: Seq<FriendModel>) -> (
        Seq<NetworkEventModel>,
        Seq<FriendModel>,
    ) {
        (Seq::empty(), friends)
    }

    proof fn lemma_dispatched(data: Seq<u8>, at: int, friends: Seq<FriendModel>) {
        reveal(chat_events_at);
        reveal(entity_events_at);
        reveal(status_events_at);
        reveal(map_events_at);
        reveal(inventory_events_at);
        reveal(inventory_sequence_at);
        reveal(skill_events_at);
    }
}

impl Dispatched for DamagePacket {
    open spec fn brought(packet: DamagePacket, friends: Seq<FriendModel>) -> (
        Seq<NetworkEventModel>,
        Seq<FriendModel>,
    ) {
        (damage_events(packet), friends)
    }

    proof fn lemma_dispatched(data: Seq<u8>, at: int, friends: Seq<FriendModel>) {
        reveal(chat_events_at);
        reveal(entity_events_at);
        reveal(status_events_at);
        reveal(map_events_at);
        reveal(inventory_events_at);
        reveal(inventory_sequence_at);
        reveal(skill_events_at);
    }
}

impl Dispatched for UseSkillSuccessPacket {
    open spec fn brought(packet: UseSkillSuccessPacket, friends: Seq<FriendModel>) -> (
        Seq<NetworkEventModel>,
        Seq<FriendModel>,
    ) {
        (Seq::empty(), friends)
    }

    proof fn lemma_dispatched(data: Seq<u8>, at: int, friends: Seq<FriendModel>) {
        reveal(chat_events_at);
        reveal(entity_events_at);
        reveal(status_events_at);
        reveal(map_events_at);
        reveal(inventory_events_at);
        reveal(inventory_sequence_at);
        reveal(skill_events_at);
    }
}

impl Dispatched for ToUseSkillSuccessPacket {
    open spec fn brought(packet: ToUseSkillSuccessPacket, friends: Seq<FriendModel>) -> (
        Seq<NetworkEventModel>,
        Seq<FriendModel>,
    ) {
        (Seq::empty(), friends)
    }

    proof fn lemma_dispatched(data: Seq<u8>, at: int, friends: Seq<FriendModel>) {
        reveal(chat_events_at);
        reveal(entity_events_at);
        reveal(status_events_at);
        reveal(map_events_at);
        reveal(inventory_events_at);
        reveal(inventory_sequence_at);
        reveal(skill_events_at);
    }
}

impl Dispatched for NotifySkillUnitPacket {
    open spec fn brought(packet: NotifySkillUnitPacket, friends: Seq<FriendModel>) -> (
        Seq<NetworkEventModel>,
        Seq<FriendModel>,
    ) {
        (notify_skill_unit_events(packet), friends)
    }

    proof fn lemma_dispatched(data: Seq<u8>, at: int, friends: Seq<FriendModel>) {
        reveal(chat_events_at);
        reveal(entity_events_at);
        reveal(status_events_at);
        reveal(map_events_at);
        reveal(inventory_events_at);
        reveal(inventory_sequence_at);
        reveal(skill_events_at);
    }
}

impl Dispatched for SkillUnitDisappearPacket {
    open spec fn brought(packet: SkillUnitDisappearPacket, friends: Seq<FriendModel>) -> (
        Seq<NetworkEventModel>,
        Seq<FriendModel>,
    ) {
        (skill_unit_disappear_events(packet), friends)
    }

    proof fn lemma_dispatched(data: Seq<u8>, at: int, friends: Seq<FriendModel>) {
        reveal(chat_events_at);
        reveal(entity_events_at);
        reveal(status_events_at);
        reveal(map_events_at);
        reveal(inventory_events_at);
        reveal(inventory_sequence_at);
        reveal(skill_events_at);
    }
}

impl Dispatched for NotifyGroundSkillPacket {
    open spec fn brought(packet: NotifyGroundSkillPacket, friends: Seq<FriendModel>) -> (
        Seq<NetworkEventModel>,
        Seq<FriendModel>,
    ) {
        (Seq::empty(), friends)
    }

    proof fn lemma_dispatched(data: Seq<u8>, at: int, friends: Seq<FriendModel>) {
        reveal(chat_events_at);
        reveal(entity_events_at);
        reveal(status_events_at);
        reveal(map_events_at);
        reveal(inventory_events_at);
        reveal(inventory_sequence_at);
        reveal(skill_events_at);
    }
}

impl Dispatched for QuestNotificationPacket1 {
    open spec fn brought(packet: QuestNotificationPacket1Model, friends: Seq<FriendModel>) -> (
        Seq<NetworkEventModel>,
        Seq<FriendModel>,
    ) {
        (Seq::empty(), friends)
    }

    proof fn lemma_dispatched(data: Seq<u8>, at: int, friends: Seq<FriendModel>) {
        reveal(chat_events_at);
        reveal(entity_events_at);
        reveal(status_events_at);
        reveal(map_events_at);
        reveal(inventory_events_at);
        reveal(inventory_sequence_at);
        reveal(skill_events_at);
        reveal(quest_events_at);
    }
}

impl Dispatched for HuntingQuestNotificationPacket {
    open spec fn brought(
        packet: HuntingQuestNotificationPacketModel,
        friends: Seq<FriendModel>,
    ) -> (
        Seq<NetworkEventModel>,
        Seq<FriendModel>,
    ) {
        (Seq::empty(), friends)
    }

    proof fn lemma_dispatched(data: Seq<u8>, at: int, friends: Seq<FriendModel>) {
        reveal(chat_events_at);
        reveal(entity_events_at);
        reveal(status_events_at);
        reveal(map_events_at);
        reveal(inventory_events_at);
        reveal(inventory_sequence_at);
        reveal(skill_events_at);
        reveal(quest_events_at);
    }
}

impl Dispatched for HuntingQuestUpdateObjectivePacket {
    open spec fn brought(
        packet: HuntingQuestUpdateObjectivePacketModel,
        friends: Seq<FriendModel>,
    ) -> (
        Seq<NetworkEventModel>,
        Seq<FriendModel>,
    ) {
        (Seq::empty(), friends)
    }

    proof fn lemma_dispatched(data: Seq<u8>, at: int, friends: Seq<FriendModel>) {
        reveal(chat_events_at);
        reveal(entity_events_at);
        reveal(status_events_at);
        reveal(map_events_at);
        reveal(inventory_events_at);
        reveal(inventory_sequence_at);
        reveal(skill_events_at);
        reveal(quest_events_at);
    }
}

impl Dispatched for QuestRemovedPacket {
    open spec fn brought(packet: QuestRemovedPacket, friends: Seq<FriendModel>) -> (
        Seq<NetworkEventModel>,
        Seq<FriendModel>,
    ) {
        (Seq::empty(), friends)
    }

    proof fn lemma_dispatched(data: Seq<u8>, at: int, friends: Seq<FriendModel>) {
        reveal(chat_events_at);
        reveal(entity_events_at);
        reveal(status_events_at);
        reveal(map_events_at);
        reveal(inventory_events_at);
        reveal(inventory_sequence_at);
        reveal(skill_events_at);
        reveal(quest_events_at);
    }
}

impl Dispatched for QuestListPacket {
    open spec fn brought(packet: QuestListPacketModel, friends: Seq<FriendModel>) -> (
        Seq<NetworkEventModel>,
        Seq<FriendModel>,
    ) {
        (Seq::empty(), friends)
    }

    proof fn lemma_dispatched(data: Seq<u8>, at: int, friends: Seq<FriendModel>) {
        reveal(chat_events_at);
        reveal(entity_events_at);
        reveal(status_events_at);
        reveal(map_events_at);
        reveal(inventory_events_at);
        reveal(inventory_sequence_at);
        reveal(skill_events_at);
        reveal(quest_events_at);
    }
}

impl Dispatched for QuestEffectPacket {
    open spec fn brought(packet: QuestEffectPacket, friends: Seq<FriendModel>) -> (
        Seq<NetworkEventModel>,
        Seq<FriendModel>,
    ) {
        (quest_effect_events(packet), friends)
    }

    proof fn lemma_dispatched(data: Seq<u8>, at: int, friends: Seq<FriendModel>) {
        reveal(chat_events_at);
        reveal(entity_events_at);
        reveal(status_events_at);
        reveal(map_events_at);
        reveal(inventory_events_at);
        reveal(inventory_sequence_at);
        reveal(skill_events_at);
        reveal(quest_events_at);
    }
}

impl Dispatched for NextButtonPacket {
    open spec fn brought(packet: NextButtonPacket, friends: Seq<FriendModel>) -> (
        Seq<NetworkEventModel>,
        Seq<FriendModel>,
    ) {
        (next_button_events(packet), friends)
    }

    proof fn lemma_dispatched(data: Seq<u8>, at: int, friends: Seq<FriendModel>) {
        reveal(chat_events_at);
        reveal(entity_events_at);
        reveal(status_events_at);
        reveal(map_events_at);
        reveal(inventory_events_at);
        reveal(inventory_sequence_at);
        reveal(skill_events_at);
        reveal(quest_events_at);
        reveal(dialog_events_at);
    }
}

impl Dispatched for CloseButtonPacket {
    open spec fn brought(packet: CloseButtonPacket, friends: Seq<FriendModel>) -> (
        Seq<NetworkEventModel>,
        Seq<FriendModel>,
    ) {
        (close_button_events(packet), friends)
    }

    proof fn lemma_dispatched(data: Seq<u8>, at: int, friends: Seq<FriendModel>) {
        reveal(chat_events_at);
        reveal(entity_events_at);
        reveal(status_events_at);
        reveal(map_events_at);
        reveal(inventory_events_at);
        reveal(inventory_sequence_at);
        reveal(skill_events_at);
        reveal(quest_events_at);
        reveal(dialog_events_at);
    }
}

impl Dispatched for DialogMenuPacket {
    open spec fn brought(packet: DialogMenuPacketModel, friends: Seq<FriendModel>) -> (
        Seq<NetworkEventModel>,
        Seq<FriendModel>,
    ) {
        (dialog_menu_events(packet), friends)
    }

    proof fn lemma_dispatched(data: Seq<u8>, at: int, friends: Seq<FriendModel>) {
        reveal(chat_events_at);
        reveal(entity_events_at);
        reveal(status_events_at);
        reveal(map_events_at);
        reveal(inventory_events_at);
        reveal(inventory_sequence_at);
        reveal(skill_events_at);
        reveal(quest_events_at);
        reveal(dialog_events_at);
    }
}

impl Dispatched for NpcDialogPacket {
    open spec fn brought(packet: NpcDialogPacketModel, friends: Seq<FriendModel>) -> (
        Seq<NetworkEventModel>,
        Seq<FriendModel>,
    ) {
        (npc_dialog_events(packet), friends)
    }

    proof fn lemma_dispatched(data: Seq<u8>, at: int, friends: Seq<FriendModel>) {
        reveal(chat_events_at);
        reveal(entity_events_at);
        reveal(status_events_at);
        reveal(map_events_at);
        reveal(inventory_events_at);
        reveal(inventory_sequence_at);
        reveal(skill_events_at);
        reveal(quest_events_at);
        reveal(dialog_events_at);
    }
}

impl Dispatched for FriendOnlineStatusPacket {
    open spec fn brought(packet: FriendOnlineStatusPacketModel, friends: Seq<FriendModel>) -> (
        Seq<NetworkEventModel>,
        Seq<FriendModel>,
    ) {
        (Seq::empty(), friends)
    }

    proof fn lemma_dispatched(data: Seq<u8>, at: int, friends: Seq<FriendModel>) {
        reveal(chat_events_at);
        reveal(entity_events_at);
        reveal(status_events_at);
        reveal(map_events_at);
        reveal(inventory_events_at);
        reveal(inventory_sequence_at);
        reveal(skill_events_at);
        reveal(quest_events_at);
        reveal(dialog_events_at);
        reveal(friend_events_at);
    }
}

impl Dispatched for FriendRequestPacket {
    open spec fn brought(packet: FriendRequestPacketModel, friends: Seq<FriendModel>) -> (
        Seq<NetworkEventModel>,
        Seq<FriendModel>,
    ) {
        (friend_request_events(packet), friends)
    }

    proof fn lemma_dispatched(data: Seq<u8>, at: int, friends: Seq<FriendModel>) {
        reveal(chat_events_at);
        reveal(entity_events_at);
        reveal(status_events_at);
        reveal(map_events_at);
        reveal(inventory_events_at);
        reveal(inventory_sequence_at);
        reveal(skill_events_at);
        reveal(quest_events_at);
        reveal(dialog_events_at);
        reveal(friend_events_at);
    }
}

impl Dispatched for PartyInvitePacket {
    open spec fn brought(packet: PartyInvitePacketModel, friends: Seq<FriendModel>) -> (
        Seq<NetworkEventModel>,
        Seq<FriendModel>,
    ) {
        (Seq::empty(), friends)
    }

    proof fn lemma_dispatched(data: Seq<u8>, at: int, friends: Seq<FriendModel>) {
        reveal(chat_events_at);
        reveal(entity_events_at);
        reveal(status_events_at);
        reveal(map_events_at);
        reveal(inventory_events_at);
        reveal(inventory_sequence_at);
        reveal(skill_events_at);
        reveal(quest_events_at);
        reveal(dialog_events_at);
        reveal(friend_events_at);
    }
}

impl Dispatched for ReputationPacket {
    open spec fn brought(packet: ReputationPacketModel, friends: Seq<FriendModel>) -> (
        Seq<NetworkEventModel>,
        Seq<FriendModel>,
    ) {
        (Seq::empty(), friends)
    }

    proof fn lemma_dispatched(data: Seq<u8>, at: int, friends: Seq<FriendModel>) {
        reveal(chat_events_at);
        reveal(entity_events_at);
        reveal(status_events_at);
        reveal(map_events_at);
        reveal(inventory_events_at);
        reveal(inventory_sequence_at);
        reveal(skill_events_at);
        reveal(quest_events_at);
        reveal(dialog_events_at);
        reveal(friend_events_at);
    }
}

impl Dispatched for ClanInfoPacket {
    open spec fn brought(packet: ClanInfoPacketModel, friends: Seq<FriendModel>) -> (
        Seq<NetworkEventModel>,
        Seq<FriendModel>,
    ) {
        (Seq::empty(), friends)
    }

    proof fn lemma_dispatched(data: Seq<u8>, at: int, friends: Seq<FriendModel>) {
        reveal(chat_events_at);
        reveal(entity_events_at);
        reveal(status_events_at);
        reveal(map_events_at);
        reveal(inventory_events_at);
        reveal(inventory_sequence_at);
        reveal(skill_events_at);
        reveal(quest_events_at);
        reveal(dialog_events_at);
        reveal(friend_events_at);
    }
}

impl Dispatched for ClanOnlineCountPacket {
    open spec fn brought(packet: ClanOnlineCountPacket, friends: Seq<FriendModel>) -> (
        Seq<NetworkEventModel>,
        Seq<FriendModel>,
    ) {
        (Seq::empty(), friends)
    }

    proof fn lemma_dispatched(data: Seq<u8>, at: int, friends: Seq<FriendModel>) {
        reveal(chat_events_at);
        reveal(entity_events_at);
        reveal(status_events_at);
        reveal(map_events_at);
        reveal(inventory_events_at);
        reveal(inventory_sequence_at);
        reveal(skill_events_at);
        reveal(quest_events_at);
        reveal(dialog_events_at);
        reveal(friend_events_at);
    }
}

/// The items of a list of regular items: none of them can be worn.
pub open spec fn regular_items(list: Seq<RegularItemInformation>) -> Seq<InventoryItem> {
    Seq::new(
        list.len(),
        |i: int|
            (
                list[i].index,
                list[i].item_id,
                EquipPosition::NoPosition,
                EquipPosition::NoPosition,
            ),
    )
}

/// The items of a list of items that can be worn.
pub open spec fn equippable_items(list: Seq<EquippableItemInformationModel>) -> Seq<
    InventoryItem,
> {
    Seq::new(
        list.len(),
        |i: int|
            (list[i].index, list[i].item_id, list[i].equip_position, list[i].equipped_position),
    )
}

/// The items of the inventory whose lists begin at `at`, behind the items that
/// earlier lists gave: frame by frame up to the one that ends the inventory.
/// With them comes the position behind that frame. A frame of another type
/// among them is an error.
pub open spec fn inventory_at(data: Seq<u8>, at: int, items: Seq<InventoryItem>) -> Result<
    (Seq<InventoryItem>, int),
    ConversionError,
>
    decreases data.len() - at,
{
    if at + 2 > data.len() {
        Err(ConversionError::Incomplete)
    } else if u16_at(data, at) == InventoyEndPacket::packet_header() {
        match InventoyEndPacket::payload_decoding(data, at + 2) {
            Ok((_, length)) => Ok((items, at + 2 + length)),
            Err(error) => Err(error),
        }
    } else if u16_at(data, at) == RegularItemListPacket::packet_header() {
        match RegularItemListPacket::payload_decoding(data, at + 2) {
            Ok((packet, length)) => if at + 2 + length <= data.len() {
                inventory_at(
                    data,
                    at + 2 + length,
                    items + regular_items(packet.item_information),
                )
            } else {
                Err(ConversionError::Invalid)
            },
            Err(error) => Err(error),
        }
    } else if u16_at(data, at) == EquippableItemListPacket::packet_header() {
        match EquippableItemListPacket::payload_decoding(data, at + 2) {
            Ok((packet, length)) => if at + 2 + length <= data.len() {
                inventory_at(
                    data,
                    at + 2 + length,
                    items + equippable_items(packet.item_information),
                )
            } else {
                Err(ConversionError::Invalid)
            },
            Err(error) => Err(error),
        }
    } else {
        Err(ConversionError::Invalid)
    }
}

/// What the frame that begins an inventory brings, together with the frames
/// of the inventory behind it: one event with all the items.
#[verifier::opaque]
pub open spec fn inventory_sequence_at(header: u16, data: Seq<u8>, at: int) -> Option<
    Result<(Seq<NetworkEventModel>, nat), ConversionError>,
> {
    if header == InventoyStartPacket::packet_header() {
        Some(
            match InventoyStartPacket::payload_decoding(data, at) {
                Ok((_, length)) => match inventory_at(data, at + length, Seq::empty()) {
                    Ok((items, end)) => Ok(
                        (seq![NetworkEventModel::Inventory(items)], (end - at) as nat),
                    ),
                    Err(error) => Err(error),
                },
                Err(error) => Err(error),
            },
        )
    } else {
        None
    }
}

/// Adds the items of a list of regular items.
fn add_regular_items(item_data: &mut Vec<InventoryItem>, list: &Vec<RegularItemInformation>)
    ensures
        final(item_data)@ == old(item_data)@ + regular_items(models(list@)),
{
    let ghost before = item_data@;
    let mut index: usize = 0;
    assert(item_data@ =~= before + regular_items(models(list@)).take(0));
    while index < list.len()
        invariant
            index <= list.len(),
            item_data@ == before + regular_items(models(list@)).take(index as int),
        decreases list.len() - index,
    {
        let item_information = &list[index];
        item_data.push(
            (
                item_information.index,
                item_information.item_id,
                EquipPosition::NoPosition,
                EquipPosition::NoPosition,
            ),
        );
        assert(item_data@ =~= before + regular_items(models(list@)).take(index + 1));
        index = index + 1;
    }
    assert(regular_items(models(list@)).take(index as int) =~= regular_items(models(list@)));
}

/// Adds the items of a list of items that can be worn.
fn add_equippable_items(
    item_data: &mut Vec<InventoryItem>,
    list: &Vec<EquippableItemInformation>,
)
    ensures
        final(item_data)@ == old(item_data)@ + equippable_items(models(list@)),
{
    let ghost before = item_data@;
    let mut index: usize = 0;
    assert(item_data@ =~= before + equippable_items(models(list@)).take(0));
    while index < list.len()
        invariant
            index <= list.len(),
            item_data@ == before + equippable_items(models(list@)).take(index as int),
        decreases list.len() - index,
    {
        let item_information = &list[index];
        item_data.push(
            (
                item_information.index,
                item_information.item_id,
                item_information.equip_position,
                item_information.equipped_position,
            ),
        );
        assert(item_data@ =~= before + equippable_items(models(list@)).take(index + 1));
        index = index + 1;
    }
    assert(equippable_items(models(list@)).take(index as int) =~= equippable_items(
        models(list@),
    ));
}

/// Decodes the frames of an inventory, from the payload of the frame that
/// begins it on, and converts them to one event. The cursor stands behind the
/// header of that frame.
fn inventory_sequence(header: u16, byte_stream: &mut ByteStream) -> (result: Option<
    Result<Vec<NetworkEvent>, ConversionError>,
>)
    requires
        old(byte_stream).offset() >= 2,
    ensures
        final(byte_stream).data() == old(byte_stream).data(),
        final(byte_stream).version() == old(byte_stream).version(),
        match inventory_sequence_at(
            header,
            old(byte_stream).data(),
            old(byte_stream).offset() as int,
        ) {
            Some(Ok((events, length))) => {
                &&& result matches Some(Ok(list))
                &&& event_models(list@) == events
                &&& final(byte_stream).offset() == old(byte_stream).offset() + length
            },
            Some(Err(error)) => {
                &&& result matches Some(Err(failure))
                &&& failure == error
                &&& final(byte_stream).offset() == old(byte_stream).offset()
            },
            None => {
                &&& result is None
                &&& final(byte_stream).offset() == old(byte_stream).offset()
            },
        },
{
    proof {
        reveal(inventory_sequence_at);
    }
    if header != InventoyStartPacket::header() {
        return None;
    }
    let ghost data = byte_stream.data();
    let ghost at = byte_stream.offset() as int;
    let mut cursor = byte_stream.fork();
    match InventoyStartPacket::payload_from_bytes(&mut cursor) {
        Ok(_) => {},
        Err(error) => {
            return Some(Err(error));
        },
    }
    let ghost start = cursor.offset() as int;
    let mut item_data: Vec<InventoryItem> = Vec::new();
    assert(item_data@ =~= Seq::<InventoryItem>::empty());
    loop
        invariant
            header == InventoyStartPacket::packet_header(),
            *byte_stream == *old(byte_stream),
            data == byte_stream.data(),
            at == byte_stream.offset(),
            at <= start <= cursor.offset(),
            cursor.data() == data,
            cursor.version() == byte_stream.version(),
            InventoyStartPacket::payload_decoding(data, at) matches Ok((_, length)) && at + length
                == start,
            inventory_at(data, start, Seq::empty()) == inventory_at(
                data,
                cursor.offset() as int,
                item_data@,
            ),
        decreases data.len() - cursor.offset(),
    {
        proof {
            reveal(inventory_sequence_at);
        }
        let mut frame = cursor.fork();
        let frame_header = match frame.read_u16() {
            Ok(frame_header) => frame_header,
            Err(error) => {
                return Some(Err(error));
            },
        };
        if frame_header == InventoyEndPacket::header() {
            match InventoyEndPacket::payload_from_bytes(&mut frame) {
                Ok(_) => {
                    byte_stream.follow(&frame);
                    let mut events: Vec<NetworkEvent> = Vec::new();
                    events.push(NetworkEvent::Inventory(item_data));
                    assert(event_models(events@) =~= seq![
                        NetworkEventModel::Inventory(item_data@),
                    ]);
                    return Some(Ok(events));
                },
                Err(error) => {
                    return Some(Err(error));
                },
            }
        } else if frame_header == RegularItemListPacket::header() {
            match RegularItemListPacket::payload_from_bytes(&mut frame) {
                Ok(packet) => {
                    let end = frame.get_offset();
                    assert(end <= data.len());
                    add_regular_items(&mut item_data, &packet.item_information);
                    cursor.follow(&frame);
                },
                Err(error) => {
                    return Some(Err(error));
                },
            }
        } else if frame_header == EquippableItemListPacket::header() {
            match EquippableItemListPacket::payload_from_bytes(&mut frame) {
                Ok(packet) => {
                    let end = frame.get_offset();
                    assert(end <= data.len());
                    add_equippable_items(&mut item_data, &packet.item_information);
                    cursor.follow(&frame);
                },
                Err(error) => {
                    return Some(Err(error));
                },
            }
        } else {
            return Some(Err(ConversionError::Invalid));
        }
    }
}

/// The list of friends without the friend of the given account and character.
pub open spec fn without_friend(
    friends: Seq<FriendModel>,
    account_id: AccountId,
    character_id: CharacterId,
) -> Seq<FriendModel>
    decreases friends.len(),
{
    if friends.len() == 0 {
        Seq::empty()
    } else if friends.last().account_id == account_id && friends.last().character_id
        == character_id {
        without_friend(friends.drop_last(), account_id, character_id)
    } else {
        without_friend(friends.drop_last(), account_id, character_id).push(friends.last())
    }
}

/// What a frame that changes the list of friends brings: the events, the list
/// of friends after it, and the length of the payload that begins at `at`.
/// Nothing where the header is that of no such frame.
#[verifier::opaque]
pub open spec fn friend_list_events_at(
    header: u16,
    data: Seq<u8>,
    at: int,
    friends: Seq<FriendModel>,
) -> Option<Result<(Seq<NetworkEventModel>, Seq<FriendModel>, nat), ConversionError>> {
    if header == FriendListPacket::packet_header() {
        Some(
            match FriendListPacket::payload_decoding(data, at) {
                Ok((packet, length)) => Ok((Seq::empty(), packet.friends, length)),
                Err(error) => Err(error),
            },
        )
    } else if header == FriendRequestResultPacket::packet_header() {
        Some(
            match FriendRequestResultPacket::payload_decoding(data, at) {
                Ok((packet, length)) => Ok(
                    (
                        seq![
                            NetworkEventModel::ChatMessage(
                                FriendRequestResultPacket::message(
                                    packet.result,
                                    packet.friend.name,
                                ),
                                Color::of(220, 200, 30),
                            ),
                        ],
                        if packet.result == FriendRequestResult::Accepted {
                            friends.push(packet.friend)
                        } else {
                            friends
                        },
                        length,
                    ),
                ),
                Err(error) => Err(error),
            },
        )
    } else if header == NotifyFriendRemovedPacket::packet_header() {
        Some(
            match NotifyFriendRemovedPacket::payload_decoding(data, at) {
                Ok((packet, length)) => Ok(
                    (
                        Seq::empty(),
                        without_friend(friends, packet.account_id, packet.character_id),
                        length,
                    ),
                ),
                Err(error) => Err(error),
            },
        )
    } else {
        None
    }
}

/// Removes the friend of the given account and character from the list.
fn remove_friend(friends: &mut Vec<Friend>, account_id: AccountId, character_id: CharacterId)
    ensures
        models(final(friends)@) == without_friend(models(old(friends)@), account_id, character_id),
{
    let ghost all = models(friends@);
    let mut kept: Vec<Friend> = Vec::new();
    let mut index: usize = 0;
    assert(models(kept@) =~= without_friend(all.take(0), account_id, character_id));
    while index < friends.len()
        invariant
            all == models(friends@),
            index <= friends.len(),
            models(kept@) == without_friend(all.take(index as int), account_id, character_id),
        decreases friends.len() - index,
    {
        let ghost before = models(kept@);
        let friend = &friends[index];
        proof {
            assert(all.take(index + 1).drop_last() =~= all.take(index as int));
            assert(all.take(index + 1).last() == friend.model());
        }
        if !(friend.account_id == account_id && friend.character_id == character_id) {
            let copy = friend.clone();
            kept.push(copy);
            assert(models(kept@) =~= before.push(friend.model()));
        }
        index = index + 1;
    }
    assert(all.take(index as int) =~= all);
    *friends = kept;
}

/// Decodes the payload of a frame that changes the list of friends, changes
/// the list, and converts the frame to the events that it brings. The cursor
/// stands behind the header.
fn friend_list_events(
    header: u16,
    byte_stream: &mut ByteStream,
    friends: &mut Vec<Friend>,
) -> (result:
    Option<Result<Vec<NetworkEvent>, ConversionError>>)
    requires
        old(byte_stream).offset() >= 2,
    ensures
        final(byte_stream).data() == old(byte_stream).data(),
        final(byte_stream).version() == old(byte_stream).version(),
        match friend_list_events_at(
            header,
            old(byte_stream).data(),
            old(byte_stream).offset() as int,
            models(old(friends)@),
        ) {
            Some(Ok((events, list_after, length))) => {
                &&& result matches Some(Ok(list))
                &&& event_models(list@) == events
                &&& models(final(friends)@) == list_after
                &&& final(byte_stream).offset() == old(byte_stream).offset() + length
            },
            Some(Err(error)) => {
                &&& result matches Some(Err(failure))
                &&& failure == error
                &&& final(byte_stream).offset() == old(byte_stream).offset()
                &&& models(final(friends)@) == models(old(friends)@)
            },
            None => {
                &&& result is None
                &&& final(byte_stream).offset() == old(byte_stream).offset()
                &&& models(final(friends)@) == models(old(friends)@)
            },
        },
{
    proof {
        reveal(friend_list_events_at);
    }
    let mut events: Vec<NetworkEvent> = Vec::new();
    assert(event_models(events@) =~= Seq::<NetworkEventModel>::empty());
    if header == FriendListPacket::header() {
        match FriendListPacket::payload_from_bytes(byte_stream) {
            Ok(packet) => {
                *friends = packet.friends;
                Some(Ok(events))
            },
            Err(error) => Some(Err(error)),
        }
    } else if header == FriendRequestResultPacket::header() {
        match FriendRequestResultPacket::payload_from_bytes(byte_stream) {
            Ok(packet) => {
                let ghost model = packet.model();
                let ghost before = models(friends@);
                if packet.result == FriendRequestResult::Accepted {
                    let copy = packet.friend.clone();
                    friends.push(copy);
                    assert(models(friends@) =~= before.push(model.friend));
                }
                let color = Color::rgb(220, 200, 30);
                let chat_message = ChatMessage::new(packet.into_message(), color);
                events.push(NetworkEvent::ChatMessage(chat_message));
                assert(event_models(events@) =~= seq![
                    NetworkEventModel::ChatMessage(
                        FriendRequestResultPacket::message(model.result, model.friend.name),
                        Color::of(220, 200, 30),
                    ),
                ]);
                Some(Ok(events))
            },
            Err(error) => Some(Err(error)),
        }
    } else if header == NotifyFriendRemovedPacket::header() {
        match NotifyFriendRemovedPacket::payload_from_bytes(byte_stream) {
            Ok(packet) => {
                remove_friend(friends, packet.account_id, packet.character_id);
                Some(Ok(events))
            },
            Err(error) => Some(Err(error)),
        }
    } else {
        None
    }
}

/// What a frame brings, where it leaves the list of friends as it is.
pub open spec fn keeping(
    brought: Result<(Seq<NetworkEventModel>, nat), ConversionError>,
    friends: Seq<FriendModel>,
) -> Result<(Seq<NetworkEventModel>, Seq<FriendModel>, nat), ConversionError> {
    match brought {
        Ok((events, length)) => Ok((events, friends, length + 2)),
        Err(error) => Err(error),
    }
}

/// What the frame at `at` brings: the events, the list of friends after it,
/// and the length of the frame. The header of the frame decides its packet
/// type; a header that no packet type has is the error `WrongHeader`.
pub open spec fn frame_events(data: Seq<u8>, at: int, friends: Seq<FriendModel>) -> Result<
    (Seq<NetworkEventModel>, Seq<FriendModel>, nat),
    ConversionError,
> {
    if at + 2 > data.len() {
        Err(ConversionError::Incomplete)
    } else {
        let header = u16_at(data, at);
        let chat = chat_events_at(header, data, at + 2);
        let entity = entity_events_at(header, data, at + 2);
        let status = status_events_at(header, data, at + 2);
        let map = map_events_at(header, data, at + 2);
        let inventory = inventory_events_at(header, data, at + 2);
        let sequence = inventory_sequence_at(header, data, at + 2);
        let skill = skill_events_at(header, data, at + 2);
        let quest = quest_events_at(header, data, at + 2);
        let dialog = dialog_events_at(header, data, at + 2);
        let friend = friend_events_at(header, data, at + 2);
        let list = friend_list_events_at(header, data, at + 2, friends);
        if chat is Some {
            keeping(chat->Some_0, friends)
        } else if entity is Some {
            keeping(entity->Some_0, friends)
        } else if status is Some {
            keeping(status->Some_0, friends)
        } else if map is Some {
            keeping(map->Some_0, friends)
        } else if inventory is Some {
            keeping(inventory->Some_0, friends)
        } else if sequence is Some {
            keeping(sequence->Some_0, friends)
        } else if skill is Some {
            keeping(skill->Some_0, friends)
        } else if quest is Some {
            keeping(quest->Some_0, friends)
        } else if dialog is Some {
            keeping(dialog->Some_0, friends)
        } else if friend is Some {
            keeping(friend->Some_0, friends)
        } else {
            match list {
                Some(Ok((events, list_after, length))) => Ok((events, list_after, length + 2)),
                Some(Err(error)) => Err(error),
                None => Err(ConversionError::WrongHeader),
            }
        }
    }
}

/// Decodes the frame at the cursor, changes the list of friends as the frame
/// says, and converts the frame to the events that it brings. The cursor moves
/// behind the frame. Where the frame does not decode the cursor and the list
/// stay.
pub fn decode_frame(byte_stream: &mut ByteStream, friends: &mut Vec<Friend>) -> (result: Result<
    Vec<NetworkEvent>,
    ConversionError,
>)
    ensures
        final(byte_stream).data() == old(byte_stream).data(),
        final(byte_stream).version() == old(byte_stream).version(),
        match frame_events(
            old(byte_stream).data(),
            old(byte_stream).offset() as int,
            models(old(friends)@),
        ) {
            Ok((events, list_after, length)) => {
                &&& result matches Ok(list)
                &&& event_models(list@) == events
                &&& models(final(friends)@) == list_after
                &&& final(byte_stream).offset() == old(byte_stream).offset() + length
            },
            Err(error) => {
                &&& result matches Err(failure)
                &&& failure == error
                &&& models(final(friends)@) == models(old(friends)@)
                &&& final(byte_stream).offset() == old(byte_stream).offset()
            },
        },
{
    let mut cursor = byte_stream.fork();
    let header = cursor.read_u16()?;
    let brought = match chat_events(header, &mut cursor) {
        Some(brought) => brought,
        None => match entity_events(header, &mut cursor) {
            Some(brought) => brought,
            None => match status_events(header, &mut cursor) {
                Some(brought) => brought,
                None => match map_events(header, &mut cursor) {
                    Some(brought) => brought,
                    None => match inventory_events(header, &mut cursor) {
                        Some(brought) => brought,
                        None => match inventory_sequence(header, &mut cursor) {
                            Some(brought) => brought,
                            None => match skill_events(header, &mut cursor) {
                                Some(brought) => brought,
                                None => match quest_events(header, &mut cursor) {
                                    Some(brought) => brought,
                                    None => match dialog_events(header, &mut cursor) {
                                        Some(brought) => brought,
                                        None => match friend_events(header, &mut cursor) {
                                            Some(brought) => brought,
                                            None => match friend_list_events(
                                                header,
                                                &mut cursor,
                                                friends,
                                            ) {
                                                Some(brought) => brought,
                                                None => Err(ConversionError::WrongHeader),
                                            },
                                        },
                                    },
                                },
                            },
                        },
                    },
                },
            },
        },
    };
    let events = brought?;
    byte_stream.follow(&cursor);
    Ok(events)
}

/// How a dispatch ends.
pub struct Dispatching {
    /// The events of the frames that were dispatched, in their order.
    pub events: Seq<NetworkEventModel>,
    /// The list of friends after those frames.
    pub friends: Seq<FriendModel>,
    /// The position behind the last frame that was dispatched.
    pub stopped_at: int,
    /// Why the frame at that position was not dispatched; nothing where the
    /// buffer ends there.
    pub reason: Option<ConversionError>,
}

/// How the dispatch of the frames from `at` on ends, behind the events that
/// earlier frames brought.
pub open spec fn dispatching(
    data: Seq<u8>,
    at: int,
    friends: Seq<FriendModel>,
    events: Seq<NetworkEventModel>,
) -> Dispatching
    decreases data.len() - at,
{
    if at >= data.len() {
        Dispatching { events, friends, stopped_at: at, reason: None }
    } else {
        match frame_events(data, at, friends) {
            Ok((brought, list_after, length)) => if length > 0 && at + length <= data.len() {
                dispatching(data, at + length, list_after, events + brought)
            } else {
                Dispatching {
                    events,
                    friends,
                    stopped_at: at,
                    reason: Some(ConversionError::Invalid),
                }
            },
            Err(error) => Dispatching { events, friends, stopped_at: at, reason: Some(error) },
        }
    }
}

/// What a dispatch leaves of the buffer.
pub enum Remainder {
    /// Nothing: every byte belonged to a frame that was dispatched.
    Nothing,
    /// A frame that is not all there yet. These are its bytes: the frame
    /// decodes once the bytes that are still to come stand behind them.
    Incomplete(Vec<u8>),
    /// A frame whose header no packet type has, and all that follows it.
    Unknown(UnknownPacket),
    /// A frame that can never decode, and all that follows it.
    Invalid(Vec<u8>),
}

impl Remainder {
    /// The bytes that were not dispatched.
    pub open spec fn bytes(&self) -> Seq<u8> {
        match self {
            Remainder::Nothing => Seq::empty(),
            Remainder::Incomplete(bytes) => bytes@,
            Remainder::Unknown(packet) => packet.bytes@,
            Remainder::Invalid(bytes) => bytes@,
        }
    }

    /// Why the first of the bytes that were not dispatched was not.
    pub open spec fn reason(&self) -> Option<ConversionError> {
        match self {
            Remainder::Nothing => None,
            Remainder::Incomplete(_) => Some(ConversionError::Incomplete),
            Remainder::Unknown(_) => Some(ConversionError::WrongHeader),
            Remainder::Invalid(_) => Some(ConversionError::Invalid),
        }
    }
}

/// Dispatches the frames of a buffer, one behind the other: decodes each,
/// changes the list of friends as it says, and converts it to the events that
/// it brings. The dispatch ends with the buffer, or at the first frame that
/// is not all there, has a header that no packet type has, or does not decode.
pub fn dispatch(data: &[u8], friends: &mut Vec<Friend>) -> (result: (Vec<NetworkEvent>, Remainder))
    ensures
        ({
            let end = dispatching(data@, 0, models(old(friends)@), Seq::empty());
            &&& event_models(result.0@) == end.events
            &&& models(final(friends)@) == end.friends
            &&& 0 <= end.stopped_at <= data@.len()
            &&& result.1.bytes() == data@.skip(end.stopped_at)
            &&& result.1.reason() == end.reason
        }),
{
    let mut byte_stream = ByteStream::new(data);
    let mut events: Vec<NetworkEvent> = Vec::new();
    let ghost first_friends = models(friends@);
    assert(event_models(events@) =~= Seq::<NetworkEventModel>::empty());
    while !byte_stream.is_empty()
        invariant
            byte_stream.data() == data@,
            first_friends == models(old(friends)@),
            dispatching(data@, 0, first_friends, Seq::empty()) == dispatching(
                data@,
                byte_stream.offset() as int,
                models(friends@),
                event_models(events@),
            ),
        decreases data@.len() - byte_stream.offset(),
    {
        let ghost before = event_models(events@);
        let at = byte_stream.get_offset();
        match decode_frame(&mut byte_stream, friends) {
            Ok(mut brought) => {
                let ghost more = event_models(brought@);
                let end = byte_stream.get_offset();
                assert(at < end <= data@.len());
                events.append(&mut brought);
                assert(event_models(events@) =~= before + more);
            },
            Err(error) => {
                let rest = slice_to_vec(slice_subrange(data, at, data.len()));
                assert(rest@ =~= data@.skip(at as int));
                let remainder = match error {
                    ConversionError::Incomplete => Remainder::Incomplete(rest),
                    ConversionError::WrongHeader => Remainder::Unknown(UnknownPacket::new(rest)),
                    ConversionError::Invalid => Remainder::Invalid(rest),
                };
                return (events, remainder);
            },
        }
    }
    let at = byte_stream.get_offset();
    assert(data@.skip(at as int) =~= Seq::<u8>::empty());
    (events, Remainder::Nothing)
}

/// A packet type whose frames the dispatcher takes one by one.
pub trait Dispatched: Packet {
    /// The events that a packet of the type brings, and the list of friends
    /// after it.
    spec fn brought(packet: Self::Model, friends: Seq<FriendModel>) -> (
        Seq<NetworkEventModel>,
        Seq<FriendModel>,
    );

    /// Where a frame has the header of the type, the dispatcher reads it as the
    /// codec of the type does: it gives the events of the packet that the
    /// frame decodes to, spans the frame, and fails as the codec fails.
    proof fn lemma_dispatched(data: Seq<u8>, at: int, friends: Seq<FriendModel>)
        ensures
            match frame_decoding::<Self>(data, at) {
                Ok((packet, length)) => frame_events(data, at, friends) == Ok::<
                    (Seq<NetworkEventModel>, Seq<FriendModel>, nat),
                    ConversionError,
                >((Self::brought(packet, friends).0, Self::brought(packet, friends).1, length)),
                Err(ConversionError::WrongHeader) => true,
                Err(error) => frame_events(data, at, friends) == Err::<
                    (Seq<NetworkEventModel>, Seq<FriendModel>, nat),
                    ConversionError,
                >(error),
            },
    ;
}

impl Dispatched for FriendListPacket {
    open spec fn brought(packet: FriendListPacketModel, friends: Seq<FriendModel>) -> (
        Seq<NetworkEventModel>,
        Seq<FriendModel>,
    ) {
        (Seq::empty(), packet.friends)
    }

    proof fn lemma_dispatched(data: Seq<u8>, at: int, friends: Seq<FriendModel>) {
        reveal(chat_events_at);
        reveal(entity_events_at);
        reveal(status_events_at);
        reveal(map_events_at);
        reveal(inventory_events_at);
        reveal(inventory_sequence_at);
        reveal(skill_events_at);
        reveal(quest_events_at);
        reveal(dialog_events_at);
        reveal(friend_events_at);
        reveal(friend_list_events_at);
    }
}

impl Dispatched for FriendRequestResultPacket {
    open spec fn brought(packet: FriendRequestResultPacketModel, friends: Seq<FriendModel>) -> (
        Seq<NetworkEventModel>,
        Seq<FriendModel>,
    ) {
        (
            seq![
                NetworkEventModel::ChatMessage(
                    FriendRequestResultPacket::message(packet.result, packet.friend.name),
                    Color::of(220, 200, 30),
                ),
            ],
            if packet.result == FriendRequestResult::Accepted {
                friends.push(packet.friend)
            } else {
                friends
            },
        )
    }

    proof fn lemma_dispatched(data: Seq<u8>, at: int, friends: Seq<FriendModel>) {
        reveal(chat_events_at);
        reveal(entity_events_at);
        reveal(status_events_at);
        reveal(map_events_at);
        reveal(inventory_events_at);
        reveal(inventory_sequence_at);
        reveal(skill_events_at);
        reveal(quest_events_at);
        reveal(dialog_events_at);
        reveal(friend_events_at);
        reveal(friend_list_events_at);
    }
}

impl Dispatched for NotifyFriendRemovedPacket {
    open spec fn brought(packet: NotifyFriendRemovedPacket, friends: Seq<FriendModel>) -> (
        Seq<NetworkEventModel>,
        Seq<FriendModel>,
    ) {
        (Seq::empty(), without_friend(friends, packet.account_id, packet.character_id))
    }

    proof fn lemma_dispatched(data: Seq<u8>, at: int, friends: Seq<FriendModel>) {
        reveal(chat_events_at);
        reveal(entity_events_at);
        reveal(status_events_at);
        reveal(map_events_at);
        reveal(inventory_events_at);
        reveal(inventory_sequence_at);
        reveal(skill_events_at);
        reveal(quest_events_at);
        reveal(dialog_events_at);
        reveal(friend_events_at);
        reveal(friend_list_events_at);
    }
}

/// The frame of a faithful packet gives, at the dispatcher, the events of that very
/// packet and the list of friends that the packet leaves, and the frame is
/// taken whole: nothing of it is left, and nothing of it is unknown.
pub proof fn lemma_dispatch_round_trip<P: Dispatched>(value: P::Model, friends: Seq<FriendModel>)
    requires
        P::encodable(value),
        P::faithful(value),
    ensures
        dispatching(frame_encoding::<P>(value), 0, friends, Seq::empty()) == (Dispatching {
            events: P::brought(value, friends).0,
            friends: P::brought(value, friends).1,
            stopped_at: frame_encoding::<P>(value).len() as int,
            reason: None,
        }),
{
    let data = frame_encoding::<P>(value);
    let brought = P::brought(value, friends);
    lemma_frame_round_trip::<P>(value, Seq::empty());
    assert(data + Seq::<u8>::empty() =~= data);
    P::lemma_dispatched(data, 0, friends);
    lemma_dispatch_frame(data, 0, friends, Seq::empty());
    lemma_dispatch_end(data, brought.1, Seq::empty() + brought.0);
    assert(Seq::<NetworkEventModel>::empty() + brought.0 =~= brought.0);
}

/// A frame that decodes is dispatched, and the dispatch goes on behind it with
/// its events and with the list of friends that it leaves.
pub proof fn lemma_dispatch_frame(
    data: Seq<u8>,
    at: int,
    friends: Seq<FriendModel>,
    events: Seq<NetworkEventModel>,
)
    requires
        0 <= at < data.len(),
        frame_events(data, at, friends) is Ok,
        at + frame_events(data, at, friends)->Ok_0.2 <= data.len(),
    ensures
        dispatching(data, at, friends, events) == dispatching(
            data,
            at + frame_events(data, at, friends)->Ok_0.2,
            frame_events(data, at, friends)->Ok_0.1,
            events + frame_events(data, at, friends)->Ok_0.0,
        ),
{
}

/// At the end of the buffer the dispatch ends: with the events and the list of
/// friends that it has, and with nothing left.
pub proof fn lemma_dispatch_end(
    data: Seq<u8>,
    friends: Seq<FriendModel>,
    events: Seq<NetworkEventModel>,
)
    ensures
        dispatching(data, data.len() as int, friends, events) == (Dispatching {
            events,
            friends,
            stopped_at: data.len() as int,
            reason: None,
        }),
{
}

/// A frame that is not all there ends the dispatch where it begins, with the
/// events of the frames before it, and is told from every error: the reason is
/// `Incomplete`.
pub proof fn lemma_dispatch_incomplete(
    data: Seq<u8>,
    at: int,
    friends: Seq<FriendModel>,
    events: Seq<NetworkEventModel>,
)
    requires
        0 <= at < data.len(),
        frame_events(data, at, friends) == Err::<
            (Seq<NetworkEventModel>, Seq<FriendModel>, nat),
            ConversionError,
        >(ConversionError::Incomplete),
    ensures
        dispatching(data, at, friends, events) == (Dispatching {
            events,
            friends,
            stopped_at: at,
            reason: Some(ConversionError::Incomplete),
        }),
{
}

/// A buffer of exactly three frames that decode gives the events of the three
/// frames, in their order, and nothing is left of it.
pub proof fn lemma_dispatch_three_frames(data: Seq<u8>, friends: Seq<FriendModel>)
    requires
        frame_events(data, 0, friends) is Ok,
        ({
            let first = frame_events(data, 0, friends)->Ok_0;
            &&& frame_events(data, first.2 as int, first.1) is Ok
            &&& ({
                let second = frame_events(data, first.2 as int, first.1)->Ok_0;
                &&& frame_events(data, (first.2 + second.2) as int, second.1) is Ok
                &&& first.2 + second.2 + frame_events(
                    data,
                    (first.2 + second.2) as int,
                    second.1,
                )->Ok_0.2 == data.len()
            })
        }),
    ensures
        ({
            let first = frame_events(data, 0, friends)->Ok_0;
            let second = frame_events(data, first.2 as int, first.1)->Ok_0;
            let third = frame_events(data, (first.2 + second.2) as int, second.1)->Ok_0;
            dispatching(data, 0, friends, Seq::empty()) == (Dispatching {
                events: first.0 + second.0 + third.0,
                friends: third.1,
                stopped_at: data.len() as int,
                reason: None,
            })
        }),
{
    let first = frame_events(data, 0, friends)->Ok_0;
    let second = frame_events(data, first.2 as int, first.1)->Ok_0;
    let third = frame_events(data, (first.2 + second.2) as int, second.1)->Ok_0;
    lemma_frame_is_not_empty(data, 0, friends);
    lemma_frame_is_not_empty(data, first.2 as int, first.1);
    lemma_frame_is_not_empty(data, (first.2 + second.2) as int, second.1);
    lemma_dispatch_frame(data, 0, friends, Seq::empty());
    lemma_dispatch_frame(data, first.2 as int, first.1, Seq::empty() + first.0);
    lemma_dispatch_frame(
        data,
        (first.2 + second.2) as int,
        second.1,
        Seq::empty() + first.0 + second.0,
    );
    lemma_dispatch_end(data, third.1, Seq::empty() + first.0 + second.0 + third.0);
    assert(Seq::<NetworkEventModel>::empty() + first.0 + second.0 + third.0 =~= first.0
        + second.0 + third.0);
}

/// A frame that decodes has a header: it is at least two bytes long.
pub proof fn lemma_frame_is_not_empty(data: Seq<u8>, at: int, friends: Seq<FriendModel>)
    ensures
        frame_events(data, at, friends) matches Ok((_, _, length)) ==> length >= 2,
{
}

/// A buffer of one frame that decodes and of the beginning of a second frame
/// gives the events of the first frame. The bytes of the second frame are
/// left, and the reason is that the frame is not all there: it is no error.
pub proof fn lemma_dispatch_partial(data: Seq<u8>, friends: Seq<FriendModel>)
    requires
        frame_events(data, 0, friends) is Ok,
        frame_events(data, 0, friends)->Ok_0.2 < data.len(),
        frame_events(
            data,
            frame_events(data, 0, friends)->Ok_0.2 as int,
            frame_events(data, 0, friends)->Ok_0.1,
        ) == Err::<(Seq<NetworkEventModel>, Seq<FriendModel>, nat), ConversionError>(
            ConversionError::Incomplete,
        ),
    ensures
        dispatching(data, 0, friends, Seq::empty()) == (Dispatching {
            events: frame_events(data, 0, friends)->Ok_0.0,
            friends: frame_events(data, 0, friends)->Ok_0.1,
            stopped_at: frame_events(data, 0, friends)->Ok_0.2 as int,
            reason: Some(ConversionError::Incomplete),
        }),
{
    let first = frame_events(data, 0, friends)->Ok_0;
    lemma_frame_is_not_empty(data, 0, friends);
    lemma_dispatch_frame(data, 0, friends, Seq::empty());
    lemma_dispatch_incomplete(data, first.2 as int, first.1, Seq::empty() + first.0);
    assert(Seq::<NetworkEventModel>::empty() + first.0 =~= first.0);
}

} // verus!
