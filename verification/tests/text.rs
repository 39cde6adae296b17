use korangar::network::event::{ChatMessage, Color, UnknownPacket};
use korangar::network::friend::{Friend, FriendRequestResult, FriendRequestResultPacket};
use korangar::network::ids::{AccountId, CharacterId};
use korangar::network::inventory::EquipPosition;
use korangar::network::text::{byte_length, remove_all, split_pieces};

#[test]
fn map_names_lose_their_ending() {
    assert_eq!(remove_all("prontera.gat", ".gat"), "prontera");
    assert_eq!(remove_all("prontera", ".gat"), "prontera");
    assert_eq!(remove_all(".gat.gat", ".gat"), "");
    assert_eq!(remove_all("a.gatb.gatc", ".gat"), "abc");
    assert_eq!(remove_all(".ga.gatt", ".gat"), ".gat");
    assert_eq!(remove_all("abc", ""), "abc");
    assert_eq!(remove_all("", ".gat"), "");
    assert_eq!(remove_all(".ga", ".gat"), ".ga");
}

#[test]
fn choices_are_the_pieces_between_colons() {
    assert_eq!(split_pieces("yes:no", ':'), vec!["yes".to_string(), "no".to_string()]);
    assert_eq!(split_pieces("yes:no:", ':'), vec!["yes".to_string(), "no".to_string()]);
    assert_eq!(split_pieces("::a::b:", ':'), vec!["a".to_string(), "b".to_string()]);
    assert_eq!(split_pieces("", ':'), Vec::<String>::new());
    assert_eq!(split_pieces(":::", ':'), Vec::<String>::new());
    assert_eq!(split_pieces("one", ':'), vec!["one".to_string()]);
}

#[test]
fn chat_messages_carry_a_stamp() {
    let message = ChatMessage::stamped("12:00: ".to_string(), "hi there".to_string(), Color::rgb(1, 2, 3));
    assert_eq!(message.stamped_text(true), "12:00: hi there");
    assert_eq!(message.stamped_text(false), "hi there");
    assert_eq!(message.color(), Color { red: 1, green: 2, blue: 3, alpha: 255 });

    let message = ChatMessage::new("hi there".to_string(), Color::monochrome(230));
    assert_eq!(message.stamped_text(false), "hi there");
    let stamped = message.stamped_text(true);
    assert!(stamped.ends_with("hi there"));
    assert!(stamped.starts_with("^66BB44"));
    assert!(stamped.ends_with(": ^000000hi there"));
    assert_eq!(stamped.len(), 24 + 8);
    assert_eq!(message.color(), Color { red: 230, green: 230, blue: 230, alpha: 255 });
}

#[test]
fn equip_positions_have_names() {
    assert_eq!(EquipPosition::HeadLower.display_name(), "head lower");
    assert_eq!(EquipPosition::RigthAccessory.display_name(), "right accessory");
    assert_eq!(EquipPosition::ShadowArmor.display_name(), "shadow ammo");
    assert_eq!(EquipPosition::LeftRightHand.display_name(), "two hand weapon");
    assert_eq!(EquipPosition::ShadowLeftRightAccessory.display_name(), "shadow accessory");
    assert_eq!(EquipPosition::Ammo.display_name(), "ammo");
}

fn result_packet(result: FriendRequestResult) -> FriendRequestResultPacket {
    FriendRequestResultPacket {
        result,
        friend: Friend { account_id: AccountId(1), character_id: CharacterId(2), name: "Ann".to_string() },
    }
}

#[test]
fn friend_request_results_have_messages() {
    assert_eq!(result_packet(FriendRequestResult::Accepted).into_message(), "You have become friends with Ann.");
    assert_eq!(result_packet(FriendRequestResult::Rejected).into_message(), "Ann does not want to be friends with you.");
    assert_eq!(result_packet(FriendRequestResult::OwnFriendListFull).into_message(), "Your Friend List is full.");
    assert_eq!(result_packet(FriendRequestResult::OtherFriendListFull).into_message(), "Ann's Friend List is full.");
}

#[test]
fn unknown_packets_show_their_header() {
    let packet = UnknownPacket::new(vec![0x34, 0x12, 1, 2, 3]);
    let (signature, data) = packet.parts();
    assert_eq!(signature, Some(0x1234));
    assert_eq!(data, &[1, 2, 3]);
    let packet = UnknownPacket::new(vec![0x34, 0x12]);
    let (signature, data) = packet.parts();
    assert_eq!(signature, None);
    assert_eq!(data, &[0x34, 0x12]);
}

#[test]
fn the_length_of_a_text_on_the_wire_is_that_of_its_bytes() {
    assert_eq!(byte_length(""), 0);
    assert_eq!(byte_length("hello"), 5);
    assert_eq!(byte_length("h\u{e9}llo"), 6);
    assert_eq!(byte_length("\u{d55c}\u{ae00}"), 6);
    assert_eq!(byte_length("a\0b"), 3);
}
