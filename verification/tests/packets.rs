use cgmath::Vector2;
use korangar::loaders::{ByteConvertable, ByteStream, ConversionError, FixedByteSize};
use korangar::network::character::{
    CharacterInformation, CharacterServerLoginPacket, CreateCharacterPacket, DeleteCharacterPacket,
    RequestCharacterListPacket, RequestCharacterListSuccessPacket, SelectCharacterPacket,
    SwitchCharacterSlotPacket,
};
use korangar::network::chat::{
    BroadcastMessagePacket, GlobalMessagePacket, OverheadMessagePacket, ServerMessagePacket,
};
use korangar::network::entity::{EntityMovePacket, RequestDetailsPacket};
use korangar::network::friend::{Friend, FriendListPacket};
use korangar::network::ids::{AccountId, CharacterId, ClientTick, EntityId, ItemId, Sex, SkillLevel};
use korangar::network::inventory::{EquipPosition, EquippableItemInformation, ItemOptions};
use korangar::network::login::{
    CharacterServerInformation, LoginFailedPacket, LoginFailedReason, LoginServerKeepalivePacket,
    LoginServerLoginPacket, LoginServerLoginSuccessPacket,
};
use korangar::network::map::{
    MapLoadedPacket, MapServerLoginPacket, RequestServerTickPacket, RequestWarpToMapPacket,
    ServerTickPacket,
};
use korangar::network::position::WorldPosition2;
use korangar::network::quest::{
    ObjectiveDetails1, QuestColor, QuestEffect, QuestEffectPacket, QuestNotificationPacket1,
};
use korangar::network::skill::{HotkeyData, SkillInformation, SkillType, UnitId, UpdateHotkeysPacket};
use korangar::network::Packet;

fn character(name: &str, slot: u8) -> CharacterInformation {
    CharacterInformation {
        character_id: CharacterId(150000 + slot as u32),
        experience: 1234567890123,
        money: -5,
        job_experience: 17,
        jop_level: 3,
        body_state: 0,
        health_state: 0,
        effect_state: 0,
        virtue: 0,
        honor: 0,
        jobpoint: 12,
        health_points: 4000,
        maximum_health_points: 4500,
        spell_points: 30,
        maximum_spell_points: 60,
        movement_speed: 150,
        job: 7,
        head: 2,
        body: 0,
        weapon: 1,
        level: 42,
        sp_point: 3,
        accessory: 0,
        shield: 0,
        accessory2: 0,
        accessory3: 0,
        head_palette: 1,
        body_palette: 0,
        name: name.to_string(),
        strength: 9,
        agility: 8,
        vit: 7,
        intelligence: 6,
        dexterity: 5,
        luck: 4,
        character_number: slot,
        hair_color: 1,
        b_is_changed_char: 0,
        map_name: "prontera.gat".to_string(),
        deletion_reverse_date: 0,
        robe_palette: 0,
        character_slot_change_count: 1,
        character_name_change_count: 0,
        sex: Sex::Male,
    }
}

#[test]
fn login_request_frame_is_exact() {
    let bytes = LoginServerLoginPacket::new("u".to_string(), "p".to_string()).to_bytes();
    let mut expected = vec![0x64, 0x00, 0, 0, 0, 0];
    expected.extend([b'u'].iter().chain([0u8; 23].iter()));
    expected.extend([b'p'].iter().chain([0u8; 23].iter()));
    expected.push(0);
    assert_eq!(bytes, expected);
    assert_eq!(bytes.len(), 55);
    assert_eq!(LoginServerLoginPacket::header(), 0x0064);
    assert_eq!(LoginServerLoginPacket::PACKET_NAME, "LoginServerLoginPacket");
    assert!(!LoginServerLoginPacket::IS_PING);
}

#[test]
fn keepalive_frames_are_pings() {
    assert!(LoginServerKeepalivePacket::IS_PING);
    assert!(RequestServerTickPacket::IS_PING);
    assert!(ServerTickPacket::IS_PING);
    assert!(!MapLoadedPacket::IS_PING);
    let bytes = LoginServerKeepalivePacket::new().to_bytes();
    assert_eq!(bytes.len(), 26);
    assert_eq!(&bytes[..2], &[0x00, 0x02]);
    assert!(bytes[2..].iter().all(|byte| *byte == 0));
    assert_eq!(RequestServerTickPacket::new(ClientTick(0x01020304)).to_bytes(), vec![0x60, 0x03, 4, 3, 2, 1]);
}

#[test]
fn empty_packets_are_their_header() {
    assert_eq!(MapLoadedPacket::new().to_bytes(), vec![0x7d, 0x00]);
    assert_eq!(RequestCharacterListPacket::new().to_bytes(), vec![0xa1, 0x09]);
    let data = [0x7d, 0x00, 0xff];
    let mut stream = ByteStream::new(&data);
    assert!(MapLoadedPacket::try_from_bytes(&mut stream).is_ok());
    assert_eq!(stream.get_offset(), 2);
}

#[test]
fn fixed_layout_packets_round_trip() {
    let packet = CharacterServerLoginPacket::new(AccountId(2000001), 0x11223344, 0x55667788, Sex::Female);
    let bytes = packet.to_bytes();
    assert_eq!(bytes, vec![0x65, 0, 0x81, 0x84, 0x1e, 0, 0x44, 0x33, 0x22, 0x11, 0x88, 0x77, 0x66, 0x55, 0, 0, 0]);
    let mut stream = ByteStream::new(&bytes);
    let decoded = CharacterServerLoginPacket::try_from_bytes(&mut stream).unwrap();
    assert!(stream.is_empty());
    assert_eq!(decoded.account_id, AccountId(2000001));
    assert_eq!(decoded.login_id1, 0x11223344);
    assert_eq!(decoded.login_id2, 0x55667788);
    assert_eq!(decoded.unknown, 0);
    assert_eq!(decoded.sex, Sex::Female);

    let packet = MapServerLoginPacket::new(AccountId(7), CharacterId(9), 11, ClientTick(100), Sex::Male);
    let bytes = packet.to_bytes();
    assert_eq!(bytes.len(), 2 + 4 + 4 + 4 + 4 + 1 + 4);
    let mut stream = ByteStream::new(&bytes);
    let decoded = MapServerLoginPacket::try_from_bytes(&mut stream).unwrap();
    assert_eq!(decoded.character_id, CharacterId(9));
    assert_eq!(decoded.client_tick, ClientTick(100));
    assert_eq!(decoded.unknown, [0; 4]);

    let packet = CreateCharacterPacket::new("Alice".to_string(), 3, 1, 2, 0, Sex::Male);
    let bytes = packet.to_bytes();
    assert_eq!(bytes.len(), 2 + 24 + 1 + 2 + 2 + 2 + 2 + 1);
    let mut stream = ByteStream::new(&bytes);
    let decoded = CreateCharacterPacket::try_from_bytes(&mut stream).unwrap();
    assert_eq!(decoded.name, "Alice");
    assert_eq!(decoded.slot, 3);
    assert_eq!((decoded.hair_color, decoded.hair_style, decoded.start_job), (1, 2, 0));

    let packet = DeleteCharacterPacket::new(CharacterId(5), "a@a.com".to_string());
    let bytes = packet.to_bytes();
    assert_eq!(bytes.len(), 2 + 4 + 40 + 10);
    let mut stream = ByteStream::new(&bytes);
    let decoded = DeleteCharacterPacket::try_from_bytes(&mut stream).unwrap();
    assert_eq!(decoded.email, "a@a.com");

    assert_eq!(SelectCharacterPacket::new(2).to_bytes(), vec![0x66, 0x00, 2]);
    assert_eq!(SwitchCharacterSlotPacket::new(1, 4).to_bytes(), vec![0xd4, 0x08, 1, 0, 4, 0, 1, 0]);
    assert_eq!(RequestDetailsPacket::new(EntityId(0x0a0b0c0d)).to_bytes(), vec![0x68, 0x03, 0x0d, 0x0c, 0x0b, 0x0a]);
}

#[test]
fn warp_request_holds_the_position_as_two_integers() {
    let packet = RequestWarpToMapPacket::new("geffen".to_string(), Vector2 { x: 120u16, y: 0x0102u16 });
    let bytes = packet.to_bytes();
    assert_eq!(bytes.len(), 2 + 16 + 4);
    assert_eq!(&bytes[18..], &[120, 0, 0x02, 0x01]);
    let mut stream = ByteStream::new(&bytes);
    let decoded = RequestWarpToMapPacket::try_from_bytes(&mut stream).unwrap();
    assert_eq!(decoded.map_name, "geffen");
    assert_eq!((decoded.position.x, decoded.position.y), (120, 0x0102));
}

#[test]
fn entity_move_packet_decodes() {
    let mut bytes = vec![0x86, 0x00, 1, 0, 0, 0];
    bytes.extend(WorldPosition2::new(100, 200, 101, 202).to_bytes(None));
    bytes.extend([0x10, 0x27, 0, 0]);
    let mut stream = ByteStream::new(&bytes);
    let packet = EntityMovePacket::try_from_bytes(&mut stream).unwrap();
    assert_eq!(packet.entity_id, EntityId(1));
    assert_eq!((packet.from_to.x1, packet.from_to.y1, packet.from_to.x2, packet.from_to.y2), (100, 200, 101, 202));
    assert_eq!(packet.timestamp, ClientTick(10000));
}

#[test]
fn wrong_header_leaves_the_cursor() {
    let data = [0x65, 0x00, 1, 2, 3];
    let mut stream = ByteStream::new(&data);
    assert_eq!(LoginServerLoginPacket::try_from_bytes(&mut stream).err(), Some(ConversionError::WrongHeader));
    assert_eq!(stream.get_offset(), 0);
    assert_eq!(CharacterServerLoginPacket::try_from_bytes(&mut stream).err(), Some(ConversionError::Incomplete));
    assert_eq!(stream.get_offset(), 0);
    let data = [0x65];
    let mut stream = ByteStream::new(&data);
    assert_eq!(CharacterServerLoginPacket::try_from_bytes(&mut stream).err(), Some(ConversionError::Incomplete));
}

#[test]
fn enumerations_use_their_wire_codes() {
    for (code, reason) in [(1u8, LoginFailedReason::ServerClosed), (2, LoginFailedReason::AlreadyLoggedIn), (8, LoginFailedReason::AlreadyOnline)] {
        let data = [0x81, 0x00, code];
        let mut stream = ByteStream::new(&data);
        assert_eq!(LoginFailedPacket::try_from_bytes(&mut stream).unwrap().reason, reason);
        assert_eq!(reason.to_bytes(None), vec![code]);
    }
    for code in [0u8, 3, 7, 9, 255] {
        let data = [0x81, 0x00, code];
        let mut stream = ByteStream::new(&data);
        assert_eq!(LoginFailedPacket::try_from_bytes(&mut stream).err(), Some(ConversionError::Invalid));
        assert_eq!(stream.get_offset(), 0);
    }
    assert_eq!(EquipPosition::HeadMiddle.to_bytes(None), vec![0, 2, 0, 0]);
    assert_eq!(EquipPosition::CostumeHeadLower.to_bytes(None), vec![0x64, 0x10, 0, 0]);
    assert_eq!(EquipPosition::ShadowLeftRightAccessory.to_bytes(None), vec![0, 0, 0x30, 0]);
    assert_eq!(SkillType::Trap.to_bytes(None), vec![32, 0, 0, 0]);
    assert_eq!(QuestEffect::NoEffect.to_bytes(None), vec![0x0f, 0x27]);
    assert_eq!(UnitId::Safetywall.to_bytes(None), vec![0x7e, 0, 0, 0]);
    assert_eq!(UnitId::Firewall.to_bytes(None), vec![0x7f, 0, 0, 0]);
    assert_eq!(UnitId::Deepblindtrap.to_bytes(None), vec![0x74, 0x51, 0, 0]);
    assert_eq!(UnitId::Solidtrap.to_bytes(None), vec![0x75, 0x51, 0, 0]);
    assert_eq!(UnitId::Max.to_bytes(None), vec![0x90, 0x01, 0, 0]);
    let data = [0x7f, 0, 0, 0, 0xc1, 0, 0, 0, 5, 0, 0, 0];
    let mut stream = ByteStream::new(&data);
    assert_eq!(UnitId::from_bytes(&mut stream, None), Ok(UnitId::Firewall));
    assert_eq!(UnitId::from_bytes(&mut stream, None), Ok(UnitId::GrounddriftWater));
    assert_eq!(UnitId::from_bytes(&mut stream, None), Err(ConversionError::Invalid));
}

#[test]
fn variants_that_share_a_number_encode_and_come_back_as_the_first() {
    assert_eq!(UnitId::GrounddriftWater.to_bytes(None), vec![0xc1, 0, 0, 0]);
    assert_eq!(UnitId::GdLeadership.to_bytes(None), vec![0xc1, 0, 0, 0]);
    let bytes = UnitId::GdLeadership.to_bytes(None);
    let mut stream = ByteStream::new(&bytes);
    assert_eq!(UnitId::from_bytes(&mut stream, None), Ok(UnitId::GrounddriftWater));
    assert_eq!(UnitId::GdHawkeyes.to_bytes(None), UnitId::Waterattack.to_bytes(None));
}

#[test]
fn text_beyond_ascii_is_read_one_character_for_each_byte() {
    let text = "caf\u{e9}".to_string();
    let bytes = text.to_bytes(Some(8));
    assert_eq!(bytes, vec![b'c', b'a', b'f', 0xc3, 0xa9, 0, 0, 0]);
    let mut stream = ByteStream::new(&bytes);
    assert_eq!(String::from_bytes(&mut stream, Some(8)).unwrap(), "caf\u{c3}\u{a9}");
    assert_eq!(stream.get_offset(), 8);
    assert_eq!(text.to_bytes(None), vec![b'c', b'a', b'f', 0xc3, 0xa9, 0]);

    let plain = "cafe".to_string();
    let bytes = plain.to_bytes(Some(4));
    assert_eq!(bytes, b"cafe");
    let mut stream = ByteStream::new(&bytes);
    assert_eq!(String::from_bytes(&mut stream, Some(4)).unwrap(), "cafe");
}

#[test]
fn quest_effect_packet_round_trip() {
    let packet = QuestEffectPacket {
        entity_id: EntityId(77),
        position: Vector2 { x: 5, y: 6 },
        effect: QuestEffect::DailyQuest,
        color: QuestColor::Purple,
    };
    let bytes = packet.to_bytes();
    assert_eq!(bytes, vec![0x46, 0x04, 77, 0, 0, 0, 5, 0, 6, 0, 7, 0, 3, 0]);
    let mut stream = ByteStream::new(&bytes);
    let decoded = QuestEffectPacket::try_from_bytes(&mut stream).unwrap();
    assert_eq!(decoded.entity_id, EntityId(77));
    assert_eq!(decoded.effect, QuestEffect::DailyQuest);
    assert_eq!(decoded.color, QuestColor::Purple);
}

#[test]
fn fixed_sizes_are_those_of_the_layout() {
    assert_eq!(CharacterInformation::size_in_bytes(), 175);
    assert_eq!(EquippableItemInformation::size_in_bytes(), 68);
    assert_eq!(SkillInformation::size_in_bytes(), 37);
    assert_eq!(Friend::size_in_bytes(), 32);
    assert_eq!(EquipPosition::size_in_bytes(), 4);
    assert_eq!(CharacterServerInformation::size_in_bytes(), 160);
    assert_eq!(ItemOptions::size_in_bytes(), 5);
    assert_eq!(AccountId::size_in_bytes(), 4);
    assert_eq!(ItemId::size_in_bytes(), 4);
    assert_eq!(character("Bob", 0).to_bytes(None).len(), 175);
}

#[test]
fn character_information_round_trip() {
    let bytes = character("Bob", 2).to_bytes(None);
    let mut stream = ByteStream::new(&bytes);
    let decoded = CharacterInformation::from_bytes(&mut stream, None).unwrap();
    assert!(stream.is_empty());
    assert_eq!(decoded.character_id, CharacterId(150002));
    assert_eq!(decoded.experience, 1234567890123);
    assert_eq!(decoded.money, -5);
    assert_eq!(decoded.level, 42);
    assert_eq!(decoded.name, "Bob");
    assert_eq!(decoded.character_number, 2);
    assert_eq!(decoded.map_name, "prontera.gat");
    assert_eq!(decoded.character_slot_change_count, 1);
    assert_eq!(decoded.sex, Sex::Male);
    assert_eq!(decoded.to_bytes(None), bytes);
}

#[test]
fn length_prefixed_frames_span_their_length() {
    let packet = RequestCharacterListSuccessPacket {
        packet_length: 4 + 2 * 175,
        character_information: vec![character("Bob", 0), character("Eve", 1)],
    };
    let mut bytes = packet.to_bytes();
    assert_eq!(bytes.len(), 354);
    assert_eq!(&bytes[..4], &[0x72, 0x0b, 0x62, 0x01]);
    bytes.extend([0x7d, 0x00]);
    let mut stream = ByteStream::new(&bytes);
    let decoded = RequestCharacterListSuccessPacket::try_from_bytes(&mut stream).unwrap();
    assert_eq!(stream.get_offset(), 354);
    assert_eq!(decoded.character_information.len(), 2);
    assert_eq!(decoded.character_information[1].name, "Eve");
    assert!(MapLoadedPacket::try_from_bytes(&mut stream).is_ok());
    assert!(stream.is_empty());

    let packet = ServerMessagePacket { packet_length: 9, message: "hello".to_string() };
    let bytes = packet.to_bytes();
    assert_eq!(bytes, vec![0x8e, 0x00, 9, 0, b'h', b'e', b'l', b'l', b'o']);
    let mut stream = ByteStream::new(&bytes);
    assert_eq!(ServerMessagePacket::try_from_bytes(&mut stream).unwrap().message, "hello");

    let packet = GlobalMessagePacket::new(11, "u : hi".to_string());
    let bytes = packet.to_bytes();
    assert_eq!(bytes, vec![0xf3, 0x00, 11, 0, b'u', b' ', b':', b' ', b'h', b'i', 0]);
    let mut stream = ByteStream::new(&bytes);
    assert_eq!(GlobalMessagePacket::try_from_bytes(&mut stream).unwrap().message, "u : hi");
}

#[test]
fn wrong_length_prefix_fails() {
    // one character, but the prefix announces a frame that is one byte longer
    let packet = RequestCharacterListSuccessPacket { packet_length: 4 + 175, character_information: vec![character("Bob", 0)] };
    let mut bytes = packet.to_bytes();
    bytes[2] += 1;
    bytes.push(0);
    bytes.extend([0x7d, 0x00]);
    let mut stream = ByteStream::new(&bytes);
    assert_eq!(RequestCharacterListSuccessPacket::try_from_bytes(&mut stream).err(), Some(ConversionError::Invalid));
    assert_eq!(stream.get_offset(), 0);

    // a prefix that is too small for the header and itself
    let data = [0x8e, 0x00, 3, 0, b'x'];
    let mut stream = ByteStream::new(&data);
    assert_eq!(ServerMessagePacket::try_from_bytes(&mut stream).err(), Some(ConversionError::Invalid));

    // a frame of fixed fields whose prefix does not fit them
    let packet = FriendListPacket {
        packet_length: 4 + 32,
        friends: vec![Friend { account_id: AccountId(1), character_id: CharacterId(2), name: "Ann".to_string() }],
    };
    let mut bytes = packet.to_bytes();
    bytes[2] -= 2;
    let mut stream = ByteStream::new(&bytes);
    assert_eq!(FriendListPacket::try_from_bytes(&mut stream).err(), Some(ConversionError::Invalid));
}

#[test]
fn truncated_frames_are_incomplete() {
    let packet = ServerMessagePacket { packet_length: 9, message: "hello".to_string() };
    let bytes = packet.to_bytes();
    for length in 0..bytes.len() {
        let mut stream = ByteStream::new(&bytes[..length]);
        assert_eq!(ServerMessagePacket::try_from_bytes(&mut stream).err(), Some(ConversionError::Incomplete));
        assert_eq!(stream.get_offset(), 0);
    }
    let bytes = character("Bob", 0).to_bytes(None);
    for length in [0usize, 1, 50, 174] {
        let mut stream = ByteStream::new(&bytes[..length]);
        assert_eq!(CharacterInformation::from_bytes(&mut stream, None).err(), Some(ConversionError::Incomplete));
        assert_eq!(stream.get_offset(), 0);
    }
}

#[test]
fn chat_frames_take_their_text_from_the_length() {
    let data = [0x9a, 0x00, 7, 0, b'h', b'i', 0, 0x7d, 0x00];
    let mut stream = ByteStream::new(&data);
    let packet = BroadcastMessagePacket::try_from_bytes(&mut stream).unwrap();
    assert_eq!(packet.message, "hi");
    assert_eq!(stream.get_offset(), 7);
    let data = [0x8d, 0x00, 11, 0, 9, 0, 0, 0, b'y', b'o', b'u', 0x7d, 0x00];
    let mut stream = ByteStream::new(&data);
    let packet = OverheadMessagePacket::try_from_bytes(&mut stream).unwrap();
    assert_eq!(packet.entity_id, EntityId(9));
    assert_eq!(packet.message, "you");
    assert_eq!(stream.get_offset(), 11);
}

#[test]
fn login_success_lists_the_character_servers() {
    let server = CharacterServerInformation {
        server_ip: [127, 0, 0, 1],
        server_port: 6121,
        server_name: [b'x'; 20],
        user_count: 3,
        server_type: 0,
        display_new: 0,
        unknown: [0; 128],
    };
    let packet = LoginServerLoginSuccessPacket {
        packet_length: 64 + 160,
        login_id1: 1,
        account_id: AccountId(2000000),
        login_id2: 2,
        ip_address: 0,
        name: [0; 24],
        unknown: 0,
        sex: Sex::Female,
        auth_token: [0; 17],
        character_server_information: vec![server],
    };
    let bytes = packet.to_bytes();
    assert_eq!(bytes.len(), 224);
    let mut stream = ByteStream::new(&bytes);
    let decoded = LoginServerLoginSuccessPacket::try_from_bytes(&mut stream).unwrap();
    assert_eq!(decoded.character_server_information.len(), 1);
    assert_eq!(decoded.character_server_information[0].server_ip, [127, 0, 0, 1]);
    assert_eq!(decoded.character_server_information[0].server_port, 6121);
    assert_eq!(decoded.sex, Sex::Female);
    // a frame that leaves half a server over does not decode
    let mut bytes = bytes;
    bytes.extend([0u8; 80]);
    bytes[2] = (304u16 & 0xff) as u8;
    bytes[3] = (304u16 >> 8) as u8;
    let mut stream = ByteStream::new(&bytes);
    assert_eq!(LoginServerLoginSuccessPacket::try_from_bytes(&mut stream).err(), Some(ConversionError::Invalid));
}

#[test]
fn hotkeys_fill_an_array_of_thirty_eight() {
    let mut hotkeys = [HotkeyData { is_skill: 0, skill_id: 0, quantity_or_skill_level: SkillLevel(0) }; 38];
    hotkeys[0] = HotkeyData { is_skill: 1, skill_id: 28, quantity_or_skill_level: SkillLevel(10) };
    hotkeys[37] = HotkeyData { is_skill: 0, skill_id: 501, quantity_or_skill_level: SkillLevel(3) };
    let packet = UpdateHotkeysPacket { rotate: 1, tab: 2, hotkeys };
    let frame = packet.to_bytes();
    assert_eq!(frame.len(), 2 + 1 + 2 + 38 * 7);
    assert_eq!(frame[..12], [0x20, 0x0b, 1, 2, 0, 1, 28, 0, 0, 0, 10, 0]);
    assert_eq!(frame[264..], [0, 0xf5, 0x01, 0, 0, 3, 0]);

    let mut stream = ByteStream::new(&frame);
    let decoded = UpdateHotkeysPacket::try_from_bytes(&mut stream).unwrap();
    assert!(stream.is_empty());
    assert_eq!(decoded.rotate, 1);
    assert_eq!(decoded.tab, 2);
    assert_eq!(decoded.hotkeys[0].skill_id, 28);
    assert_eq!(decoded.hotkeys[0].quantity_or_skill_level, SkillLevel(10));
    assert_eq!(decoded.hotkeys[1].skill_id, 0);
    assert_eq!(decoded.hotkeys[37].skill_id, 501);

    let mut stream = ByteStream::new(&frame[..270]);
    assert_eq!(UpdateHotkeysPacket::try_from_bytes(&mut stream).unwrap_err(), ConversionError::Incomplete);
    assert_eq!(stream.get_offset(), 0);
}

#[test]
fn a_quest_notification_always_holds_three_objectives() {
    let objective = |mob_id: u32, mob_name: &str| ObjectiveDetails1 {
        hunt_identification: 7,
        objective_type: 0,
        mob_id,
        minimum_level: 1,
        maximum_level: 99,
        mob_count: 10,
        mob_name: mob_name.to_string(),
    };
    let packet = QuestNotificationPacket1 {
        quest_id: 1001,
        active: 1,
        start_time: 5,
        expire_time: 6,
        objective_count: 2,
        objective_details: [objective(1002, "Poring"), objective(1113, "Drops"), objective(0, "")],
    };
    let frame = packet.to_bytes();
    assert_eq!(frame.len(), 2 + 15 + 3 * 42);
    assert_eq!(frame[..2], [0xf9, 0x09]);

    let mut stream = ByteStream::new(&frame);
    let decoded = QuestNotificationPacket1::try_from_bytes(&mut stream).unwrap();
    assert!(stream.is_empty());
    assert_eq!(decoded.quest_id, 1001);
    assert_eq!(decoded.objective_count, 2);
    assert_eq!(decoded.objective_details[0].mob_name, "Poring");
    assert_eq!(decoded.objective_details[0].mob_id, 1002);
    assert_eq!(decoded.objective_details[1].mob_name, "Drops");
    assert_eq!(decoded.objective_details[1].mob_id, 1113);
    assert_eq!(decoded.objective_details[2].mob_name, "");
    assert_eq!(decoded.objective_details[2].mob_count, 10);
}
