use cgmath::Vector2;
use korangar::loaders::{ByteConvertable, ByteStream, ConversionError};
use korangar::network::chat::ServerMessagePacket;
use korangar::network::dialog::{DialogMenuPacket, NpcDialogPacket};
use korangar::network::dispatch::{decode_frame, dispatch, Remainder};
use korangar::network::entity::{
    EntityDisappearedPacket, EntityMovePacket, SpriteChangePacket, UpdateEntityHealthPointsPacket,
    VisualEffect, VisualEffectPacket,
};
use korangar::network::event::{ChatMessage, Color, NetworkEvent};
use korangar::network::friend::{
    Friend, FriendListPacket, FriendRequestPacket, FriendRequestResult, FriendRequestResultPacket,
    NotifyFriendRemovedPacket,
};
use korangar::network::ids::{AccountId, CharacterId, ClientTick, EntityId, ItemId, ItemIndex};
use korangar::network::inventory::{
    EquipPosition, EquippableItemInformation, EquippableItemListPacket, InventoyEndPacket,
    InventoyStartPacket, ItemOptions, RegularItemInformation, RegularItemListPacket,
};
use korangar::network::map::{
    ChangeMapPacket, DisconnectResponsePacket, DisconnectResponseStatus, MapServerLoginSuccessPacket,
    RestartResponsePacket, RestartResponseStatus, ServerTickPacket,
};
use korangar::network::position::{WorldPosition, WorldPosition2};
use korangar::network::quest::{QuestColor, QuestEffect, QuestEffectPacket};
use korangar::network::skill::{SkillInformation, SkillType, UpdateSkillTreePacket};
use korangar::network::ids::{SkillId, SkillLevel};
use korangar::network::Packet;

fn friend(account: u32, name: &str) -> Friend {
    Friend { account_id: AccountId(account), character_id: CharacterId(account + 1000), name: name.to_string() }
}

fn item_index(wire: u16) -> ItemIndex {
    let bytes = wire.to_le_bytes();
    let mut stream = ByteStream::new(&bytes);
    ItemIndex::from_bytes(&mut stream, None).unwrap()
}

fn tick(value: u32) -> Vec<u8> {
    let mut bytes = vec![0x7f, 0x00];
    bytes.extend(value.to_le_bytes());
    bytes
}

#[test]
fn three_frames_give_three_events_in_order() {
    let mut data = tick(7);
    data.extend(EntityDisappearedPacket::to_bytes(&decode_disappeared(42)));
    data.extend(ServerMessagePacket { packet_length: 6, message: "ok".to_string() }.to_bytes());
    let mut friends = Vec::new();
    let (events, remainder) = dispatch(&data, &mut friends);
    assert_eq!(events.len(), 3);
    assert!(matches!(events[0], NetworkEvent::UpdateClientTick(ClientTick(7))));
    assert!(matches!(events[1], NetworkEvent::RemoveEntity(EntityId(42))));
    match &events[2] {
        NetworkEvent::ChatMessage(message) => {
            assert_eq!(message.stamped_text(false), "ok");
            assert_eq!(message.color(), Color::monochrome(255));
        }
        _ => panic!("expected a chat message"),
    }
    assert!(matches!(remainder, Remainder::Nothing));
    assert!(friends.is_empty());
}

fn decode_disappeared(entity: u32) -> EntityDisappearedPacket {
    let mut bytes = vec![0x80, 0x00];
    bytes.extend(entity.to_le_bytes());
    bytes.push(1);
    let mut stream = ByteStream::new(&bytes);
    EntityDisappearedPacket::try_from_bytes(&mut stream).unwrap()
}

#[test]
fn a_truncated_frame_is_left_for_later() {
    let mut data = tick(7);
    let second = tick(8);
    data.extend(&second[..4]);
    let mut friends = Vec::new();
    let (events, remainder) = dispatch(&data, &mut friends);
    assert_eq!(events.len(), 1);
    assert!(matches!(events[0], NetworkEvent::UpdateClientTick(ClientTick(7))));
    match remainder {
        Remainder::Incomplete(bytes) => assert_eq!(bytes, second[..4].to_vec()),
        _ => panic!("expected an incomplete frame"),
    }
    // one byte of a header is incomplete too
    let (events, remainder) = dispatch(&[0x7f], &mut friends);
    assert!(events.is_empty());
    assert!(matches!(remainder, Remainder::Incomplete(bytes) if bytes == vec![0x7f]));
    // a length-prefixed frame that is not all there
    let frame = ServerMessagePacket { packet_length: 9, message: "hello".to_string() }.to_bytes();
    let (events, remainder) = dispatch(&frame[..7], &mut friends);
    assert!(events.is_empty());
    assert!(matches!(remainder, Remainder::Incomplete(bytes) if bytes == frame[..7].to_vec()));
}

#[test]
fn an_unknown_header_captures_the_rest() {
    let mut data = tick(7);
    data.extend([0xff, 0xff, 1, 2, 3]);
    data.extend(tick(8));
    let mut friends = Vec::new();
    let (events, remainder) = dispatch(&data, &mut friends);
    assert_eq!(events.len(), 1);
    match remainder {
        Remainder::Unknown(packet) => {
            assert_eq!(packet.bytes.len(), 11);
            assert_eq!(&packet.bytes[..5], &[0xff, 0xff, 1, 2, 3]);
            assert_eq!(packet.parts().0, Some(0xffff));
        }
        _ => panic!("expected an unknown packet"),
    }
}

#[test]
fn a_frame_that_cannot_decode_is_invalid() {
    // an entity that disappears for a reason that is none
    let mut data = tick(7);
    data.extend([0x80, 0x00, 1, 0, 0, 0, 99]);
    let mut friends = Vec::new();
    let (events, remainder) = dispatch(&data, &mut friends);
    assert_eq!(events.len(), 1);
    assert!(matches!(remainder, Remainder::Invalid(bytes) if bytes == vec![0x80, 0x00, 1, 0, 0, 0, 99]));
}

#[test]
fn an_empty_buffer_gives_nothing() {
    let mut friends = vec![friend(1, "Ann")];
    let (events, remainder) = dispatch(&[], &mut friends);
    assert!(events.is_empty());
    assert!(matches!(remainder, Remainder::Nothing));
    assert_eq!(friends.len(), 1);
}

#[test]
fn map_login_gives_two_events() {
    let mut data = vec![0xeb, 0x02, 100, 0, 0, 0];
    data.extend(WorldPosition::new(150, 160).to_bytes(None));
    data.extend([5, 5, 0, 0]);
    let mut stream = ByteStream::new(&data);
    assert!(MapServerLoginSuccessPacket::try_from_bytes(&mut stream).is_ok());
    let mut friends = Vec::new();
    let (events, remainder) = dispatch(&data, &mut friends);
    assert!(matches!(remainder, Remainder::Nothing));
    assert_eq!(events.len(), 2);
    assert!(matches!(events[0], NetworkEvent::UpdateClientTick(ClientTick(100))));
    assert!(matches!(events[1], NetworkEvent::SetPlayerPosition(Vector2 { x: 150, y: 160 })));
}

#[test]
fn packets_without_events_are_consumed() {
    // an update of the attack range, an emotion, and a tick
    let mut data = vec![0x3a, 0x01, 3, 0];
    data.extend([0xc0, 0x00, 1, 0, 0, 0, 9]);
    data.extend(tick(1));
    let mut friends = Vec::new();
    let (events, remainder) = dispatch(&data, &mut friends);
    assert_eq!(events.len(), 1);
    assert!(matches!(remainder, Remainder::Nothing));
}

#[test]
fn change_map_loses_the_ending_of_the_file() {
    let mut data = vec![0x91, 0x00];
    data.extend("geffen.gat".to_string().to_bytes(Some(16)));
    data.extend([10, 0, 20, 0]);
    let mut stream = ByteStream::new(&data);
    assert!(ChangeMapPacket::try_from_bytes(&mut stream).is_ok());
    let mut friends = Vec::new();
    let (events, _) = dispatch(&data, &mut friends);
    assert_eq!(events.len(), 1);
    match &events[0] {
        NetworkEvent::ChangeMap(map, position) => {
            assert_eq!(map, "geffen");
            assert_eq!((position.x, position.y), (10, 20));
        }
        _ => panic!("expected a change of map"),
    }
}

#[test]
fn sprite_changes_of_the_base_sprite_change_the_job() {
    let job = SpriteChangePacket { account_id: AccountId(5), sprite_type: 0, value: 4001, value2: 0 };
    let other = SpriteChangePacket { account_id: AccountId(5), sprite_type: 2, value: 17, value2: 0 };
    let mut data = job.to_bytes();
    data.extend(other.to_bytes());
    let mut friends = Vec::new();
    let (events, remainder) = dispatch(&data, &mut friends);
    assert!(matches!(remainder, Remainder::Nothing));
    assert_eq!(events.len(), 1);
    assert!(matches!(events[0], NetworkEvent::ChangeJob(AccountId(5), 4001)));
}

#[test]
fn quest_effects_are_added_and_removed() {
    let add = QuestEffectPacket { entity_id: EntityId(3), position: Vector2 { x: 1, y: 2 }, effect: QuestEffect::Job, color: QuestColor::Green };
    let remove = QuestEffectPacket { entity_id: EntityId(4), position: Vector2 { x: 1, y: 2 }, effect: QuestEffect::NoEffect, color: QuestColor::Yellow };
    let mut data = add.to_bytes();
    data.extend(remove.to_bytes());
    let mut friends = Vec::new();
    let (events, _) = dispatch(&data, &mut friends);
    assert_eq!(events.len(), 2);
    assert!(matches!(&events[0], NetworkEvent::AddQuestEffect(packet) if packet.entity_id == EntityId(3) && packet.effect == QuestEffect::Job));
    assert!(matches!(events[1], NetworkEvent::RemoveQuestEffect(EntityId(4))));
}

#[test]
fn dialogs_and_choices() {
    let dialog = NpcDialogPacket { packet_length: 8 + 5, npc_id: EntityId(9), text: "Hello".to_string() };
    let menu = DialogMenuPacket { packet_length: 8 + 8, entity_id: EntityId(9), message: "yes:no::".to_string() };
    let mut data = dialog.to_bytes();
    data.extend([0xb5, 0x00, 9, 0, 0, 0]);
    data.extend(menu.to_bytes());
    data.extend([0xb6, 0x00, 9, 0, 0, 0]);
    let mut friends = Vec::new();
    let (events, remainder) = dispatch(&data, &mut friends);
    assert!(matches!(remainder, Remainder::Nothing));
    assert_eq!(events.len(), 4);
    assert!(matches!(&events[0], NetworkEvent::OpenDialog(text, EntityId(9)) if text == "Hello"));
    assert!(matches!(events[1], NetworkEvent::AddNextButton));
    assert!(matches!(&events[2], NetworkEvent::AddChoiceButtons(choices) if choices == &vec!["yes".to_string(), "no".to_string()]));
    assert!(matches!(events[3], NetworkEvent::AddCloseButton));
}

#[test]
fn visual_effects_name_their_file() {
    let packet = VisualEffectPacket { entity_id: EntityId(1), effect: VisualEffect::RefineSuccess };
    let mut friends = Vec::new();
    let (events, _) = dispatch(&packet.to_bytes(), &mut friends);
    assert!(matches!(events[0], NetworkEvent::VisualEffect("bs_refinesuccess.str", EntityId(1))));
    let packet = VisualEffectPacket { entity_id: EntityId(1), effect: VisualEffect::GameOver };
    let (events, _) = dispatch(&packet.to_bytes(), &mut friends);
    assert!(matches!(events[0], NetworkEvent::VisualEffect("help_angel\\help_angel\\help_angel.str", EntityId(1))));
}

#[test]
fn leaving_the_map() {
    let mut friends = Vec::new();
    let (events, _) = dispatch(&RestartResponsePacket { result: RestartResponseStatus::Okay }.to_bytes(), &mut friends);
    assert!(matches!(events[0], NetworkEvent::Disconnect));
    let (events, _) = dispatch(&RestartResponsePacket { result: RestartResponseStatus::Nothing }.to_bytes(), &mut friends);
    match &events[0] {
        NetworkEvent::ChatMessage(message) => {
            assert_eq!(message.stamped_text(false), "Failed to log out.");
            assert_eq!(message.color(), Color::rgb(255, 100, 100));
        }
        _ => panic!("expected a chat message"),
    }
    let (events, _) = dispatch(&DisconnectResponsePacket { result: DisconnectResponseStatus::Okay }.to_bytes(), &mut friends);
    assert!(matches!(events[0], NetworkEvent::Disconnect));
    let (events, _) = dispatch(&DisconnectResponsePacket { result: DisconnectResponseStatus::Wait10Seconds }.to_bytes(), &mut friends);
    match &events[0] {
        NetworkEvent::ChatMessage(message) => {
            assert_eq!(message.stamped_text(false), "Please wait 10 seconds before trying to log out.");
        }
        _ => panic!("expected a chat message"),
    }
}

#[test]
fn inventory_frames_become_one_event() {
    let start = InventoyStartPacket { packet_length: 5 + 3, inventory_type: 0, inventory_name: "inv".to_string() };
    let regular = RegularItemListPacket {
        packet_length: 5 + 34,
        inventory_type: 0,
        item_information: vec![RegularItemInformation {
            index: item_index(2),
            item_id: ItemId(501),
            item_type: 0,
            amount: 3,
            wear_state: 0,
            slot: [0; 4],
            hire_expiration_date: 0,
            fags: 1,
        }],
    };
    let equippable = EquippableItemListPacket {
        packet_length: 5 + 68,
        inventory_type: 0,
        item_information: vec![EquippableItemInformation {
            index: item_index(3),
            item_id: ItemId(1201),
            item_type: 4,
            equip_position: EquipPosition::RightHand,
            equipped_position: EquipPosition::NoPosition,
            slot: [0; 4],
            hire_expiration_date: 0,
            bind_on_equip_type: 0,
            w_item_sprite_number: 0,
            option_count: 0,
            option_data: [
                ItemOptions { index: 0, value: 0, parameter: 0 },
                ItemOptions { index: 0, value: 0, parameter: 0 },
                ItemOptions { index: 0, value: 0, parameter: 0 },
                ItemOptions { index: 0, value: 0, parameter: 0 },
                ItemOptions { index: 0, value: 0, parameter: 0 },
            ],
            refinement_level: 0,
            enchantment_level: 0,
            fags: 1,
        }],
    };
    let end = InventoyEndPacket { inventory_type: 0, flag: 0 };
    let mut data = start.to_bytes();
    data.extend(regular.to_bytes());
    data.extend(equippable.to_bytes());
    let before_end = data.len();
    data.extend(end.to_bytes());
    data.extend(tick(3));

    let mut friends = Vec::new();
    let (events, remainder) = dispatch(&data, &mut friends);
    assert!(matches!(remainder, Remainder::Nothing));
    assert_eq!(events.len(), 2);
    match &events[0] {
        NetworkEvent::Inventory(items) => {
            assert_eq!(items.len(), 2);
            assert_eq!(items[0].0.value(), 0);
            assert_eq!(items[0].1, ItemId(501));
            assert_eq!(items[0].2, EquipPosition::NoPosition);
            assert_eq!(items[1].0.value(), 1);
            assert_eq!(items[1].1, ItemId(1201));
            assert_eq!(items[1].2, EquipPosition::RightHand);
            assert_eq!(items[1].3, EquipPosition::NoPosition);
        }
        _ => panic!("expected the inventory"),
    }
    assert!(matches!(events[1], NetworkEvent::UpdateClientTick(ClientTick(3))));

    // an inventory whose end has not come yet is left for later, as a whole
    let (events, remainder) = dispatch(&data[..before_end], &mut friends);
    assert!(events.is_empty());
    assert!(matches!(remainder, Remainder::Incomplete(bytes) if bytes.len() == before_end));

    // another frame inside an inventory is an error
    let mut broken = start.to_bytes();
    broken.extend(tick(3));
    let (events, remainder) = dispatch(&broken, &mut friends);
    assert!(events.is_empty());
    assert!(matches!(remainder, Remainder::Invalid(_)));
}

#[test]
fn skill_tree_is_handed_on() {
    let packet = UpdateSkillTreePacket {
        packet_length: 4 + 37,
        skill_information: vec![SkillInformation {
            skill_id: SkillId(5),
            skill_type: SkillType::Attack,
            skill_level: SkillLevel(10),
            spell_point_cost: 12,
            attack_range: 1,
            skill_name: "SM_BASH".to_string(),
            upgraded: 0,
        }],
    };
    let mut friends = Vec::new();
    let (events, _) = dispatch(&packet.to_bytes(), &mut friends);
    match &events[0] {
        NetworkEvent::SkillTree(skills) => {
            assert_eq!(skills.len(), 1);
            assert_eq!(skills[0].skill_name, "SM_BASH");
            assert_eq!(skills[0].skill_id, SkillId(5));
        }
        _ => panic!("expected the skill tree"),
    }
}

#[test]
fn the_list_of_friends_follows_the_frames() {
    let list = FriendListPacket { packet_length: 4 + 64, friends: vec![friend(1, "Ann"), friend(2, "Bob")] };
    let accepted = FriendRequestResultPacket { result: FriendRequestResult::Accepted, friend: friend(3, "Cid") };
    let rejected = FriendRequestResultPacket { result: FriendRequestResult::Rejected, friend: friend(4, "Dan") };
    let removed = NotifyFriendRemovedPacket { account_id: AccountId(1), character_id: CharacterId(1001) };
    let request = FriendRequestPacket { friend: friend(5, "Eve") };

    let mut friends = vec![friend(9, "Old")];
    let mut data = list.to_bytes();
    data.extend(accepted.to_bytes());
    data.extend(rejected.to_bytes());
    data.extend(removed.to_bytes());
    data.extend(request.to_bytes());
    let (events, remainder) = dispatch(&data, &mut friends);
    assert!(matches!(remainder, Remainder::Nothing));
    let names: Vec<&str> = friends.iter().map(|friend| friend.name.as_str()).collect();
    assert_eq!(names, vec!["Bob", "Cid"]);
    assert_eq!(events.len(), 3);
    match &events[0] {
        NetworkEvent::ChatMessage(message) => {
            assert_eq!(message.stamped_text(false), "You have become friends with Cid.");
            assert_eq!(message.color(), Color::rgb(220, 200, 30));
        }
        _ => panic!("expected a chat message"),
    }
    match &events[1] {
        NetworkEvent::ChatMessage(message) => {
            assert_eq!(message.stamped_text(false), "Dan does not want to be friends with you.")
        }
        _ => panic!("expected a chat message"),
    }
    assert!(matches!(&events[2], NetworkEvent::FriendRequest(friend) if friend.name == "Eve" && friend.account_id == AccountId(5)));

    // a friend is removed only where account and character agree
    let mut friends = vec![friend(1, "Ann"), friend(2, "Bob")];
    let removed = NotifyFriendRemovedPacket { account_id: AccountId(1), character_id: CharacterId(7) };
    dispatch(&removed.to_bytes(), &mut friends);
    assert_eq!(friends.len(), 2);
}

#[test]
fn a_frame_is_decoded_at_the_cursor() {
    let mut data = tick(7);
    data.extend(tick(8));
    let mut stream = ByteStream::new(&data);
    let mut friends = Vec::new();
    let events = decode_frame(&mut stream, &mut friends).unwrap();
    assert_eq!(stream.get_offset(), 6);
    assert!(matches!(events[0], NetworkEvent::UpdateClientTick(ClientTick(7))));
    let events = decode_frame(&mut stream, &mut friends).unwrap();
    assert!(matches!(events[0], NetworkEvent::UpdateClientTick(ClientTick(8))));
    assert_eq!(decode_frame(&mut stream, &mut friends).err(), Some(ConversionError::Incomplete));
    let data = [0x64, 0x00, 0, 0];
    let mut stream = ByteStream::new(&data);
    assert_eq!(decode_frame(&mut stream, &mut friends).err(), Some(ConversionError::WrongHeader));
    assert_eq!(stream.get_offset(), 0);
    let _ = ServerTickPacket::header();
}

#[test]
fn the_frame_of_one_packet_gives_the_events_of_that_packet() {
    let mut friends = Vec::new();

    let packet = EntityMovePacket {
        entity_id: EntityId(9),
        from_to: WorldPosition2::new(10, 20, 1023, 0),
        timestamp: ClientTick(77),
    };
    let (events, remainder) = dispatch(&packet.to_bytes(), &mut friends);
    assert_eq!(events.len(), 1);
    match &events[0] {
        NetworkEvent::EntityMove(entity_id, origin, destination, tick) => {
            assert_eq!(*entity_id, EntityId(9));
            assert_eq!(*origin, Vector2 { x: 10, y: 20 });
            assert_eq!(*destination, Vector2 { x: 1023, y: 0 });
            assert_eq!(*tick, ClientTick(77));
        }
        _ => panic!("expected the move of an entity"),
    }
    assert!(matches!(remainder, Remainder::Nothing));

    let packet = UpdateEntityHealthPointsPacket {
        entity_id: EntityId(9),
        health_points: 35,
        maximum_health_points: 40,
    };
    let (events, remainder) = dispatch(&packet.to_bytes(), &mut friends);
    assert_eq!(events.len(), 1);
    assert!(matches!(events[0], NetworkEvent::UpdateEntityHealth(EntityId(9), 35, 40)));
    assert!(matches!(remainder, Remainder::Nothing));

    let (events, remainder) = dispatch(&tick(0xffff_ffff), &mut friends);
    assert_eq!(events.len(), 1);
    assert!(matches!(events[0], NetworkEvent::UpdateClientTick(ClientTick(0xffff_ffff))));
    assert!(matches!(remainder, Remainder::Nothing));
    assert!(friends.is_empty());
}

#[test]
fn chat_messages_carry_the_stamp_of_their_time() {
    let message = ChatMessage::new("hello".to_string(), Color::monochrome(255));
    assert_eq!(message.stamped_text(false), "hello");
    let stamped = message.stamped_text(true).as_bytes();
    assert_eq!(stamped.len(), 24 + 5);
    assert_eq!(&stamped[..7], b"^66BB44");
    assert!(stamped[7..9].iter().all(u8::is_ascii_digit));
    assert_eq!(stamped[9], b':');
    assert!(stamped[10..12].iter().all(u8::is_ascii_digit));
    assert_eq!(stamped[12], b':');
    assert!(stamped[13..15].iter().all(u8::is_ascii_digit));
    assert_eq!(&stamped[15..24], b": ^000000");
    assert_eq!(&stamped[24..], b"hello");
}
