use cgmath::Vector2;
use korangar::loaders::{ByteConvertable, ByteStream, ConversionError};
use korangar::network::character::{
    CharacterCreationFailedPacket, CharacterCreationFailedReason, CharacterDeletionFailedPacket,
    CharacterDeletionFailedReason, CharacterDeletionSuccessPacket, CharacterInformation,
    CharacterSelectionFailedPacket, CharacterSelectionFailedReason, CharacterSelectionSuccessPacket,
    CharacterServerLoginSuccessPacket, CreateCharacterSuccessPacket, MapServerUnavailablePacket,
    Packet6b00, RequestCharacterListSuccessPacket, SwitchCharacterSlotResponsePacket,
    SwitchCharacterSlotResponseStatus,
};
use korangar::network::dispatch::Remainder;
use korangar::network::event::NetworkEvent;
use korangar::network::ids::{AccountId, CharacterId, ClientTick, EntityId, ItemIndex, Sex, SkillId, SkillLevel};
use korangar::network::inventory::EquipPosition;
use korangar::network::login::{
    CharacterServerInformation, LoginFailedPacket, LoginFailedPacket2, LoginFailedReason,
    LoginFailedReason2, LoginServerLoginSuccessPacket,
};
use korangar::network::session::{
    Awaited, ConnectionState, LoginSettings, NetworkingSystem, SessionError,
};
use korangar::network::timer::SECOND;
use korangar::network::Packet;

fn character(name: &str, slot: u8) -> CharacterInformation {
    CharacterInformation {
        character_id: CharacterId(150000 + slot as u32),
        experience: 0,
        money: 0,
        job_experience: 0,
        jop_level: 1,
        body_state: 0,
        health_state: 0,
        effect_state: 0,
        virtue: 0,
        honor: 0,
        jobpoint: 0,
        health_points: 40,
        maximum_health_points: 40,
        spell_points: 11,
        maximum_spell_points: 11,
        movement_speed: 150,
        job: 0,
        head: 1,
        body: 0,
        weapon: 0,
        level: 1,
        sp_point: 0,
        accessory: 0,
        shield: 0,
        accessory2: 0,
        accessory3: 0,
        head_palette: 0,
        body_palette: 0,
        name: name.to_string(),
        strength: 1,
        agility: 1,
        vit: 1,
        intelligence: 1,
        dexterity: 1,
        luck: 1,
        character_number: slot,
        hair_color: 0,
        b_is_changed_char: 0,
        map_name: "new_1-1.gat".to_string(),
        deletion_reverse_date: 0,
        robe_palette: 0,
        character_slot_change_count: 0,
        character_name_change_count: 0,
        sex: Sex::Female,
    }
}

fn login_success(sex: Sex, servers: usize) -> Vec<u8> {
    let server = CharacterServerInformation {
        server_ip: [10, 0, 0, 2],
        server_port: 6121,
        server_name: [0; 20],
        user_count: 0,
        server_type: 0,
        display_new: 0,
        unknown: [0; 128],
    };
    LoginServerLoginSuccessPacket {
        packet_length: (64 + 160 * servers) as u16,
        login_id1: 0x0a0b0c0d,
        account_id: AccountId(2000000),
        login_id2: 0x01020304,
        ip_address: 0,
        name: [0; 24],
        unknown: 0,
        sex,
        auth_token: [0; 17],
        character_server_information: vec![server; servers],
    }
    .to_bytes()
}

fn character_server_success(slots: u8) -> Vec<u8> {
    CharacterServerLoginSuccessPacket {
        unknown: 29,
        normal_slot_count: slots,
        vip_slot_count: 0,
        billing_slot_count: 0,
        poducilble_slot_count: 0,
        vaild_slot: 0,
        unused: [0; 20],
    }
    .to_bytes()
}

fn character_list(characters: Vec<CharacterInformation>) -> Vec<u8> {
    RequestCharacterListSuccessPacket {
        packet_length: (4 + 175 * characters.len()) as u16,
        character_information: characters,
    }
    .to_bytes()
}

fn refusal(error: SessionError) -> String {
    match error {
        SessionError::Refused(message) => message,
        other => panic!("expected a refusal, got {:?}", other),
    }
}

fn logged_in(characters: Vec<CharacterInformation>) -> NetworkingSystem {
    let mut session = NetworkingSystem::new(LoginSettings::new());
    session.log_in("u".to_string(), "p".to_string()).unwrap();
    session.login_response(&login_success(Sex::Female, 1)).unwrap();
    session.character_server_account(&2000000u32.to_le_bytes()).unwrap();
    session.character_server_response(&character_server_success(9)).unwrap();
    session.character_list_response(&character_list(characters)).unwrap();
    session
}

#[test]
fn login_flow_against_mock_servers() {
    let mut session = NetworkingSystem::new(LoginSettings::new());
    assert_eq!(session.state(), ConnectionState::Disconnected);
    assert_eq!(session.login_data(), None);

    let request = session.log_in("u".to_string(), "p".to_string()).unwrap();
    assert_eq!(request.len(), 55);
    assert_eq!(&request[..2], &[0x64, 0x00]);
    assert_eq!(session.state(), ConnectionState::Disconnected);
    assert_eq!(session.awaited(), Awaited::LoginResponse);

    let server = session.login_response(&login_success(Sex::Female, 1)).unwrap();
    assert_eq!(server.server_ip, [10, 0, 0, 2]);
    assert_eq!(server.server_port, 6121);
    assert_eq!(server.request, vec![0x65, 0, 0x80, 0x84, 0x1e, 0, 0x0d, 0x0c, 0x0b, 0x0a, 4, 3, 2, 1, 0, 0, 0]);
    let login_data = session.login_data().unwrap();
    assert_eq!(login_data.account_id, AccountId(2000000));
    assert_eq!(login_data.login_id1, 0x0a0b0c0d);
    assert_eq!(login_data.sex, Sex::Female);

    session.character_server_account(&2000000u32.to_le_bytes()).unwrap();
    let request = session.character_server_response(&character_server_success(9)).unwrap();
    assert_eq!(request, vec![0xa1, 0x09]);
    assert_eq!(session.slot_count(), 0);
    session.character_list_response(&character_list(vec![character("Ann", 0)])).unwrap();

    assert_eq!(session.state(), ConnectionState::CharacterServerConnected);
    assert_eq!(session.awaited(), Awaited::Nothing);
    assert_eq!(session.characters().len(), 1);
    assert_eq!(session.characters()[0].name, "Ann");
    assert_eq!(session.login_data().unwrap().sex, Sex::Female);
    assert_eq!(session.slot_count(), 9);
    assert_eq!(session.get_login_settings().username, "");
    assert_eq!(session.get_login_settings().password, "");
}

#[test]
fn login_keeps_what_the_player_wants_kept() {
    let mut settings = LoginSettings::new();
    settings.password = "old".to_string();
    let mut session = NetworkingSystem::new(settings);
    session.toggle_remember_username();
    assert!(session.get_login_settings().remember_username);
    assert!(!session.get_login_settings().remember_password);
    session.log_in("user".to_string(), "secret".to_string()).unwrap();
    session.login_response(&login_success(Sex::Male, 2)).unwrap();
    session.character_server_account(&2000000u32.to_le_bytes()).unwrap();
    session.character_server_response(&character_server_success(3)).unwrap();
    session.character_list_response(&character_list(vec![])).unwrap();
    assert_eq!(session.get_login_settings().username, "user");
    assert_eq!(session.get_login_settings().password, "");
    assert_eq!(session.login_data().unwrap().sex, Sex::Male);
    assert!(session.characters().is_empty());
    session.toggle_remember_username();
    session.toggle_remember_password();
    assert!(!session.get_login_settings().remember_username);
    assert!(session.get_login_settings().remember_password);
}

#[test]
fn login_failures_tell_the_player_why() {
    let cases = [
        (LoginFailedReason::ServerClosed, "server closed"),
        (LoginFailedReason::AlreadyLoggedIn, "someone has already logged in with this id"),
        (LoginFailedReason::AlreadyOnline, "already online"),
    ];
    for (reason, message) in cases {
        let mut session = NetworkingSystem::new(LoginSettings::new());
        session.log_in("u".to_string(), "p".to_string()).unwrap();
        let error = session.login_response(&LoginFailedPacket { reason }.to_bytes()).unwrap_err();
        assert_eq!(refusal(error), message);
        assert_eq!(session.awaited(), Awaited::Nothing);
        assert_eq!(session.state(), ConnectionState::Disconnected);
        assert_eq!(session.login_data(), None);
    }
    let cases = [
        (LoginFailedReason2::UnregisteredId, "unregistered id"),
        (LoginFailedReason2::IncorrectPassword, "incorrect password"),
        (LoginFailedReason2::IdExpired, "id has expired"),
        (LoginFailedReason2::RejectedFromServer, "rejected from server"),
        (LoginFailedReason2::BlockedByGMTeam, "blocked by gm team"),
        (LoginFailedReason2::GameOutdated, "game outdated"),
        (LoginFailedReason2::LoginProhibitedUntil, "login prohibited until"),
        (LoginFailedReason2::ServerFull, "server is full"),
        (LoginFailedReason2::CompanyAccountLimitReached, "company account limit reached"),
    ];
    for (reason, message) in cases {
        let mut session = NetworkingSystem::new(LoginSettings::new());
        session.log_in("u".to_string(), "p".to_string()).unwrap();
        let error = session.login_response(&LoginFailedPacket2 { reason }.to_bytes()).unwrap_err();
        assert_eq!(refusal(error), message);
    }
    let mut session = NetworkingSystem::new(LoginSettings::new());
    session.log_in("u".to_string(), "p".to_string()).unwrap();
    let error = session.login_response(&login_success(Sex::Male, 0)).unwrap_err();
    assert_eq!(refusal(error), "no character server available");
}

#[test]
fn an_accepted_login_without_a_character_server_keeps_the_account() {
    let mut session = NetworkingSystem::new(LoginSettings::new());
    session.log_in("u".to_string(), "p".to_string()).unwrap();
    let error = session.login_response(&login_success(Sex::Female, 0)).unwrap_err();
    assert_eq!(refusal(error), "no character server available");
    assert_eq!(session.state(), ConnectionState::Disconnected);
    assert_eq!(session.awaited(), Awaited::Nothing);
    let login_data = session.login_data().unwrap();
    assert_eq!(login_data.account_id, AccountId(2000000));
    assert_eq!(login_data.login_id1, 0x0a0b0c0d);
    assert_eq!(login_data.sex, Sex::Female);
}

fn selection_success(character_id: u32) -> Vec<u8> {
    CharacterSelectionSuccessPacket {
        character_id: CharacterId(character_id),
        map_name: "prontera.gat".to_string(),
        map_server_ip: [10, 0, 0, 3],
        map_server_port: 5121,
        unknown: [0; 128],
    }
    .to_bytes()
}

#[test]
fn a_move_request_survives_the_selection_of_a_character() {
    let mut session = logged_in(vec![character("Ann", 0), character("Bob", 2)]);
    session.request_switch_character_slot(0);
    session.select_character(2).unwrap();
    assert_eq!(session.move_request(), Some(0));
    session.select_character_response(&selection_success(150002)).unwrap();
    assert_eq!(session.move_request(), Some(0));
    let selected = session.map_server_connected().unwrap();
    assert_eq!(selected.character_information.name, "Bob");
    assert_eq!(session.move_request(), Some(0));
}

#[test]
fn no_move_request_appears_when_the_map_server_cannot_be_reached() {
    let mut session = logged_in(vec![character("Ann", 0), character("Bob", 2)]);
    session.select_character(2).unwrap();
    session.select_character_response(&selection_success(150002)).unwrap();
    assert_eq!(session.move_request(), None);
    let error = session.connection_failed();
    assert_eq!(refusal(error), "Failed to connect to map server. Please try again");
    assert_eq!(session.awaited(), Awaited::Nothing);
    assert_eq!(session.move_request(), None);

    session.request_switch_character_slot(0);
    session.select_character(2).unwrap();
    session.select_character_response(&selection_success(150002)).unwrap();
    session.connection_failed();
    assert_eq!(session.move_request(), Some(0));
}

#[test]
fn a_server_that_breaks_the_protocol_ends_the_step() {
    let mut session = NetworkingSystem::new(LoginSettings::new());
    session.log_in("u".to_string(), "p".to_string()).unwrap();
    let error = session.login_response(&[0x7d, 0x00]).unwrap_err();
    assert!(matches!(error, SessionError::Protocol(ConversionError::WrongHeader)));
    assert_eq!(session.awaited(), Awaited::Nothing);

    let mut session = NetworkingSystem::new(LoginSettings::new());
    session.log_in("u".to_string(), "p".to_string()).unwrap();
    let error = session.login_response(&[0x81, 0x00, 77]).unwrap_err();
    assert!(matches!(error, SessionError::Protocol(ConversionError::Invalid)));

    let mut session = NetworkingSystem::new(LoginSettings::new());
    session.log_in("u".to_string(), "p".to_string()).unwrap();
    session.login_response(&login_success(Sex::Female, 1)).unwrap();
    let error = session.character_server_account(&2000001u32.to_le_bytes()).unwrap_err();
    assert!(matches!(error, SessionError::Protocol(ConversionError::Invalid)));

    let mut session = NetworkingSystem::new(LoginSettings::new());
    session.log_in("u".to_string(), "p".to_string()).unwrap();
    session.login_response(&login_success(Sex::Female, 1)).unwrap();
    let error = session.character_server_account(&[1, 2]).unwrap_err();
    assert!(matches!(error, SessionError::Protocol(ConversionError::Incomplete)));
}

#[test]
fn steps_out_of_order_change_nothing() {
    let mut session = NetworkingSystem::new(LoginSettings::new());
    assert!(matches!(session.login_response(&login_success(Sex::Male, 1)), Err(SessionError::OutOfOrder)));
    assert!(matches!(session.character_server_account(&[0; 4]), Err(SessionError::OutOfOrder)));
    assert!(matches!(session.character_server_response(&[]), Err(SessionError::OutOfOrder)));
    assert!(matches!(session.character_list_response(&[]), Err(SessionError::OutOfOrder)));
    assert!(matches!(session.select_character(0), Err(SessionError::OutOfOrder)));
    assert!(matches!(session.select_character_response(&[]), Err(SessionError::OutOfOrder)));
    assert!(matches!(session.map_server_connected(), Err(SessionError::OutOfOrder)));
    assert!(matches!(session.create_character_response(&[]), Err(SessionError::OutOfOrder)));
    assert!(matches!(session.delete_character_response(&[]), Err(SessionError::OutOfOrder)));
    assert!(matches!(session.switch_character_slot_response(&[]), Err(SessionError::OutOfOrder)));
    assert!(matches!(session.create_character(0, "Ann".to_string()), Err(SessionError::OutOfOrder)));
    assert!(matches!(session.delete_character(CharacterId(1)), Err(SessionError::OutOfOrder)));
    session.request_switch_character_slot(1);
    assert!(matches!(session.switch_character_slot(2), Err(SessionError::OutOfOrder)));
    assert_eq!(session.move_request(), Some(1));
    assert_eq!(session.state(), ConnectionState::Disconnected);
    assert_eq!(session.login_data(), None);
}

#[test]
fn names_that_have_no_wire_form_are_refused() {
    let mut session = NetworkingSystem::new(LoginSettings::new());
    assert!(matches!(session.log_in("a".repeat(25), "p".to_string()), Err(SessionError::Unencodable)));
    assert!(matches!(session.log_in("\u{e9}".repeat(13), "p".to_string()), Err(SessionError::Unencodable)));
    assert!(matches!(session.log_in("u".to_string(), "\u{d55c}".repeat(9)), Err(SessionError::Unencodable)));
    assert_eq!(session.state(), ConnectionState::Disconnected);
    assert!(session.log_in("a".repeat(24), "p".repeat(24)).is_ok());
    let mut session = logged_in(vec![]);
    assert!(matches!(session.create_character(0, "x".repeat(25)), Err(SessionError::Unencodable)));
    assert!(matches!(session.create_character(256, "x".to_string()), Err(SessionError::Unencodable)));
    assert!(matches!(session.select_character(256), Err(SessionError::Unencodable)));
}

#[test]
fn selecting_a_character_leads_to_the_map_server() {
    let mut session = logged_in(vec![character("Ann", 0), character("Bob", 2)]);
    let request = session.select_character(2).unwrap();
    assert_eq!(request, vec![0x66, 0x00, 2]);
    assert_eq!(session.awaited(), Awaited::CharacterSelection { slot: 2 });

    let success = CharacterSelectionSuccessPacket {
        character_id: CharacterId(150002),
        map_name: "prontera.gat".to_string(),
        map_server_ip: [10, 0, 0, 3],
        map_server_port: 5121,
        unknown: [0; 128],
    };
    let server = session.select_character_response(&success.to_bytes()).unwrap();
    assert_eq!(server.server_ip, [10, 0, 0, 3]);
    assert_eq!(server.server_port, 5121);
    let mut expected = vec![0x36, 0x04];
    expected.extend(2000000u32.to_le_bytes());
    expected.extend(150002u32.to_le_bytes());
    expected.extend(0x0a0b0c0du32.to_le_bytes());
    expected.extend(100u32.to_le_bytes());
    expected.push(0);
    expected.extend([0; 4]);
    assert_eq!(server.request, expected);
    assert_eq!(session.awaited(), Awaited::MapServerConnection);

    let selected = session.map_server_connected().unwrap();
    assert_eq!(selected.account_id, AccountId(2000000));
    assert_eq!(selected.character_information.name, "Bob");
    assert_eq!(selected.character_information.character_number, 2);
    assert_eq!(selected.map_name, "prontera");
    assert_eq!(session.state(), ConnectionState::MapConnected);
    assert_eq!(session.player_name(), "Bob");
    assert_eq!(session.move_request(), None);

    session.disconnect_from_map_server();
    assert_eq!(session.state(), ConnectionState::CharacterSelected);
    assert_eq!(session.log_out(), vec![0xb2, 0x00, 1]);
}

#[test]
fn selection_failures_tell_the_player_why() {
    let mut session = logged_in(vec![character("Ann", 0)]);
    session.select_character(0).unwrap();
    let failed = CharacterSelectionFailedPacket { reason: CharacterSelectionFailedReason::RejectedFromServer };
    assert_eq!(refusal(session.select_character_response(&failed.to_bytes()).unwrap_err()), "rejected from server");

    let cases = [
        (LoginFailedReason::ServerClosed, "Server closed"),
        (LoginFailedReason::AlreadyLoggedIn, "Someone has already logged in with this ID"),
        (LoginFailedReason::AlreadyOnline, "Already online"),
    ];
    for (reason, message) in cases {
        session.select_character(0).unwrap();
        let error = session.select_character_response(&LoginFailedPacket { reason }.to_bytes()).unwrap_err();
        assert_eq!(refusal(error), message);
    }
    session.select_character(0).unwrap();
    let unavailable = MapServerUnavailablePacket { packet_length: 4, unknown: String::new() };
    assert_eq!(refusal(session.select_character_response(&unavailable.to_bytes()).unwrap_err()), "Map server currently unavailable");

    session.select_character(0).unwrap();
    let error = session.select_character_response(&[0x7d, 0x00]).unwrap_err();
    assert!(matches!(error, SessionError::Protocol(ConversionError::WrongHeader)));
    assert_eq!(session.state(), ConnectionState::CharacterServerConnected);

    // a slot that holds no character
    session.select_character(5).unwrap();
    let success = CharacterSelectionSuccessPacket {
        character_id: CharacterId(1),
        map_name: "prontera.gat".to_string(),
        map_server_ip: [10, 0, 0, 3],
        map_server_port: 5121,
        unknown: [0; 128],
    };
    session.select_character_response(&success.to_bytes()).unwrap();
    assert!(matches!(session.map_server_connected(), Err(SessionError::Protocol(ConversionError::Invalid))));

    // a server that cannot be reached
    session.select_character(0).unwrap();
    session.select_character_response(&success.to_bytes()).unwrap();
    assert_eq!(refusal(session.connection_failed()), "Failed to connect to map server. Please try again");
    let mut session = NetworkingSystem::new(LoginSettings::new());
    session.log_in("u".to_string(), "p".to_string()).unwrap();
    session.login_response(&login_success(Sex::Female, 1)).unwrap();
    assert_eq!(refusal(session.connection_failed()), "Failed to connect to character server. Please try again");
    assert_eq!(session.awaited(), Awaited::Nothing);
    assert_eq!(session.state(), ConnectionState::Disconnected);
}

#[test]
fn characters_are_created_and_deleted() {
    let mut session = logged_in(vec![character("Ann", 0)]);
    let request = session.create_character(1, "Bob".to_string()).unwrap();
    assert_eq!(request.len(), 36);
    assert_eq!(&request[..5], &[0x39, 0x0a, b'B', b'o', b'b']);
    assert_eq!(request[26], 1);
    assert_eq!(request[35], 1);
    let created = CreateCharacterSuccessPacket { character_information: character("Bob", 1) };
    session.create_character_response(&created.to_bytes()).unwrap();
    assert_eq!(session.characters().len(), 2);
    assert_eq!(session.characters()[1].name, "Bob");

    let cases = [
        (CharacterCreationFailedReason::CharacterNameAlreadyUsed, "character name is already used"),
        (CharacterCreationFailedReason::NotOldEnough, "you are not old enough to create a character"),
        (CharacterCreationFailedReason::NotAllowedToUseSlot, "you are not allowed to use that character slot"),
        (CharacterCreationFailedReason::CharacterCerationFailed, "character creation failed"),
    ];
    for (reason, message) in cases {
        session.create_character(2, "Cid".to_string()).unwrap();
        let error = session.create_character_response(&CharacterCreationFailedPacket { reason }.to_bytes()).unwrap_err();
        assert_eq!(refusal(error), message);
        assert_eq!(session.characters().len(), 2);
    }

    let request = session.delete_character(CharacterId(150000)).unwrap();
    assert_eq!(request.len(), 56);
    assert_eq!(&request[..6], &[0xfb, 0x01, 0xf0, 0x49, 0x02, 0x00]);
    assert_eq!(&request[6..13], b"a@a.com");
    let cases = [
        (CharacterDeletionFailedReason::NotAllowed, "you are not allowed to delete this character"),
        (CharacterDeletionFailedReason::CharacterNotFound, "character was not found"),
        (CharacterDeletionFailedReason::NotEligible, "character is not eligible for deletion"),
    ];
    for (reason, message) in cases {
        let error = session.delete_character_response(&CharacterDeletionFailedPacket { reason }.to_bytes()).unwrap_err();
        assert_eq!(refusal(error), message);
        assert_eq!(session.characters().len(), 2);
        session.delete_character(CharacterId(150000)).unwrap();
    }
    session.delete_character_response(&CharacterDeletionSuccessPacket {}.to_bytes()).unwrap();
    assert_eq!(session.characters().len(), 1);
    assert_eq!(session.characters()[0].name, "Bob");
}

#[test]
fn characters_move_between_slots() {
    let mut session = logged_in(vec![character("Ann", 0), character("Bob", 1)]);
    session.request_switch_character_slot(0);
    assert_eq!(session.move_request(), Some(0));
    session.cancel_switch_character_slot();
    assert_eq!(session.move_request(), None);
    session.request_switch_character_slot(0);
    let request = session.switch_character_slot(4).unwrap();
    assert_eq!(request, vec![0xd4, 0x08, 0, 0, 4, 0, 1, 0]);
    assert_eq!(session.move_request(), None);

    let mut answer = SwitchCharacterSlotResponsePacket { unknown: 8, status: SwitchCharacterSlotResponseStatus::Success, remaining_moves: 0 }.to_bytes();
    answer.extend(character_server_success(9));
    answer.extend(Packet6b00 { unused: 0, maximum_slot_count: 9, available_slot_count: 9, vip_slot_count: 0, unknown: [0; 20] }.to_bytes());
    answer.extend(character("Ann", 4).to_bytes(None));
    answer.extend(character("Bob", 1).to_bytes(None));
    answer.extend([0x0b, 0x00, 0xa0, 0x09]);
    session.switch_character_slot_response(&answer).unwrap();
    assert_eq!(session.characters().len(), 2);
    assert_eq!(session.characters()[0].character_number, 4);
    assert_eq!(session.characters()[1].name, "Bob");

    session.request_switch_character_slot(1);
    session.switch_character_slot(2).unwrap();
    let answer = SwitchCharacterSlotResponsePacket { unknown: 8, status: SwitchCharacterSlotResponseStatus::Error, remaining_moves: 0 }.to_bytes();
    let error = session.switch_character_slot_response(&answer).unwrap_err();
    assert_eq!(refusal(error), "failed to move character to a different slot");
    assert_eq!(session.characters().len(), 2);

    session.request_switch_character_slot(1);
    session.switch_character_slot(2).unwrap();
    let mut answer = SwitchCharacterSlotResponsePacket { unknown: 8, status: SwitchCharacterSlotResponseStatus::Success, remaining_moves: 0 }.to_bytes();
    answer.extend(character_server_success(9));
    let error = session.switch_character_slot_response(&answer).unwrap_err();
    assert!(matches!(error, SessionError::Protocol(ConversionError::Incomplete)));
}

#[test]
fn keepalives_follow_their_timers() {
    let mut session = NetworkingSystem::new(LoginSettings::new());
    let frames = session.keep_alive(5 * SECOND, ClientTick(1));
    assert!(frames.login_server.is_none() && frames.character_server.is_none() && frames.map_server.is_none());
    // the timers of servers that are not connected run, but nothing is sent
    let frames = session.keep_alive(6 * SECOND, ClientTick(1));
    assert!(frames.login_server.is_none() && frames.character_server.is_none() && frames.map_server.is_none());
    let frames = session.keep_alive(48 * SECOND, ClientTick(1));
    assert_eq!(frames.login_server.unwrap().len(), 26);
    assert!(frames.character_server.is_none() && frames.map_server.is_none());

    let mut session = logged_in(vec![character("Ann", 0)]);
    let frames = session.keep_alive(10 * SECOND + 1, ClientTick(1));
    assert!(frames.login_server.is_none());
    assert_eq!(frames.character_server.unwrap(), vec![0x87, 0x01, 0, 0, 0, 0]);
    assert!(frames.map_server.is_none());

    session.select_character(0).unwrap();
    let success = CharacterSelectionSuccessPacket {
        character_id: CharacterId(150000),
        map_name: "prontera.gat".to_string(),
        map_server_ip: [10, 0, 0, 3],
        map_server_port: 5121,
        unknown: [0; 128],
    };
    session.select_character_response(&success.to_bytes()).unwrap();
    session.map_server_connected().unwrap();
    // the timer of the map server has run since the beginning: it has rolled
    // over once, and six seconds and a nanosecond are left on it
    let mut map_frames = 0;
    let mut character_frames = 0;
    for _ in 0..25 {
        let frames = session.keep_alive(SECOND, ClientTick(0x01020304));
        if let Some(frame) = frames.map_server {
            assert_eq!(frame, vec![0x60, 0x03, 4, 3, 2, 1]);
            map_frames += 1;
        }
        if frames.character_server.is_some() {
            character_frames += 1;
        }
    }
    assert_eq!(map_frames, 7);
    assert_eq!(character_frames, 2);
}

#[test]
fn requests_are_frames() {
    let mut session = logged_in(vec![character("Ann", 0)]);
    session.select_character(0).unwrap();
    let success = CharacterSelectionSuccessPacket {
        character_id: CharacterId(150000),
        map_name: "prontera.gat".to_string(),
        map_server_ip: [10, 0, 0, 3],
        map_server_port: 5121,
        unknown: [0; 128],
    };
    session.select_character_response(&success.to_bytes()).unwrap();
    session.map_server_connected().unwrap();

    assert_eq!(session.request_player_move(Vector2 { x: 1, y: 2 }).unwrap(), vec![0x81, 0x08, 0x00, 0x40, 0x20]);
    assert_eq!(session.request_player_move(Vector2 { x: 1024, y: 2 }), None);
    assert_eq!(session.request_player_move(Vector2 { x: 0, y: 5000 }), None);
    let frame = session.request_warp_to_map("geffen".to_string(), Vector2 { x: 65536 + 7, y: 9 }).unwrap();
    assert_eq!(frame.len(), 22);
    assert_eq!(&frame[..8], &[0x40, 0x01, b'g', b'e', b'f', b'f', b'e', b'n']);
    assert_eq!(&frame[18..], &[7, 0, 9, 0]);
    assert_eq!(session.request_warp_to_map("a".repeat(17), Vector2 { x: 1, y: 1 }), None);
    assert_eq!(session.map_loaded(), vec![0x7d, 0x00]);
    assert_eq!(session.request_entity_details(EntityId(3)), vec![0x68, 0x03, 3, 0, 0, 0]);
    assert_eq!(session.request_player_attack(EntityId(3)), vec![0x37, 0x04, 3, 0, 0, 0, 0]);
    assert_eq!(session.send_message("hi".to_string()).unwrap(), vec![0xf3, 0x00, 13, 0, b'A', b'n', b'n', b' ', b':', b' ', b'h', b'i', 0]);
    assert_eq!(
        session.send_message("h\u{e9}".to_string()).unwrap(),
        vec![0xf3, 0x00, 14, 0, b'A', b'n', b'n', b' ', b':', b' ', b'h', 0xc3, 0xa9, 0]
    );
    assert_eq!(session.send_message("x".repeat(70000)), None);
    assert_eq!(session.start_dialog(EntityId(3)), vec![0x90, 0x00, 3, 0, 0, 0, 1]);
    assert_eq!(session.next_dialog(EntityId(3)), vec![0xb9, 0x00, 3, 0, 0, 0]);
    assert_eq!(session.close_dialog(EntityId(3)), vec![0x46, 0x01, 3, 0, 0, 0]);
    assert_eq!(session.choose_dialog_option(EntityId(3), -1), vec![0xb8, 0x00, 3, 0, 0, 0, 0xff]);
    let bytes = [9u8, 0];
    let mut stream = ByteStream::new(&bytes);
    let index = ItemIndex::from_bytes(&mut stream, None).unwrap();
    assert_eq!(session.request_item_equip(index, EquipPosition::Armor).unwrap(), vec![0x98, 0x09, 9, 0, 16, 0, 0, 0]);
    assert_eq!(session.request_item_unequip(index).unwrap(), vec![0xab, 0x00, 9, 0]);
    assert_eq!(session.cast_skill(SkillId(5), SkillLevel(10), EntityId(3)), vec![0x38, 0x04, 10, 0, 5, 0, 3, 0, 0, 0]);
    assert_eq!(session.cast_ground_skill(SkillId(5), SkillLevel(10), Vector2 { x: 1, y: 2 }), vec![0xf4, 0x0a, 10, 0, 5, 0, 1, 0, 2, 0, 0]);
    assert_eq!(session.cast_channeling_skill(SkillId(5), SkillLevel(10), EntityId(3)), vec![0x10, 0x0b, 5, 0, 10, 0, 3, 0, 0, 0]);
    assert_eq!(session.stop_channeling_skill(SkillId(5)), vec![0x11, 0x0b, 5, 0]);
    let frame = session.add_friend("Bob".to_string()).unwrap();
    assert_eq!(frame.len(), 26);
    assert_eq!(&frame[..5], &[0x02, 0x02, b'B', b'o', b'b']);
    assert_eq!(session.add_friend("b".repeat(25)), None);
    assert_eq!(session.remove_friend(AccountId(1), CharacterId(2)), vec![0x03, 0x02, 1, 0, 0, 0, 2, 0, 0, 0]);
    assert_eq!(session.reject_friend_request(AccountId(1), CharacterId(2)), vec![0x08, 0x02, 1, 0, 0, 0, 2, 0, 0, 0, 0, 0, 0, 0]);
    assert_eq!(session.accept_friend_request(AccountId(1), CharacterId(2)), vec![0x08, 0x02, 1, 0, 0, 0, 2, 0, 0, 0, 1, 0, 0, 0]);
}

#[test]
fn events_of_the_map_server_are_reassembled() {
    let mut session = NetworkingSystem::new(LoginSettings::new());
    let first = [0x7f, 0x00, 7, 0, 0, 0, 0x7f, 0x00, 8];
    let (events, remainder) = session.network_events(&first);
    assert_eq!(events.len(), 1);
    assert!(matches!(events[0], NetworkEvent::UpdateClientTick(ClientTick(7))));
    assert!(matches!(remainder, Remainder::Incomplete(bytes) if bytes == vec![0x7f, 0x00, 8]));
    let (events, remainder) = session.network_events(&[0, 0]);
    assert!(events.is_empty());
    assert!(matches!(remainder, Remainder::Incomplete(bytes) if bytes.len() == 5));
    let (events, remainder) = session.network_events(&[0, 0x7f, 0x00, 9, 0, 0, 0]);
    assert_eq!(events.len(), 2);
    assert!(matches!(events[0], NetworkEvent::UpdateClientTick(ClientTick(8))));
    assert!(matches!(events[1], NetworkEvent::UpdateClientTick(ClientTick(9))));
    assert!(matches!(remainder, Remainder::Nothing));
    let (events, remainder) = session.network_events(&[]);
    assert!(events.is_empty());
    assert!(matches!(remainder, Remainder::Nothing));
    // what follows an unknown frame is not kept
    let (_, remainder) = session.network_events(&[0xff, 0xff, 1]);
    assert!(matches!(remainder, Remainder::Unknown(_)));
    let (events, remainder) = session.network_events(&[0x7f, 0x00, 1, 0, 0, 0]);
    assert_eq!(events.len(), 1);
    assert!(matches!(remainder, Remainder::Nothing));
    assert!(session.friend_list().is_empty());
}

#[test]
fn text_beyond_ascii_is_sent_in_its_bytes() {
    let mut session = NetworkingSystem::new(LoginSettings::new());
    let request = session.log_in("J\u{fc}rgen".to_string(), "\u{d55c}\u{ae00}".to_string()).unwrap();
    assert_eq!(request.len(), 55);
    assert_eq!(&request[6..13], &[b'J', 0xc3, 0xbc, b'r', b'g', b'e', b'n']);
    assert_eq!(&request[13..30], &[0; 17]);
    assert_eq!(&request[30..36], &[0xed, 0x95, 0x9c, 0xea, 0xb8, 0x80]);
    assert_eq!(&request[36..54], &[0; 18]);

    // twelve letters of two bytes each fill the field of 24 bytes
    let mut session = NetworkingSystem::new(LoginSettings::new());
    let request = session.log_in("\u{e9}".repeat(12), "p".to_string()).unwrap();
    assert_eq!(&request[6..30], "\u{e9}".repeat(12).as_bytes());

    let mut session = logged_in(vec![]);
    let request = session.create_character(1, "Zo\u{eb}".to_string()).unwrap();
    assert_eq!(&request[2..6], &[b'Z', b'o', 0xc3, 0xab]);
    assert!(matches!(session.create_character(1, "\u{eb}".repeat(13)), Err(SessionError::Unencodable)));

    let session = logged_in(vec![]);
    let frame = session.add_friend("Zo\u{eb}".to_string()).unwrap();
    assert_eq!(frame.len(), 26);
    assert_eq!(&frame[2..6], &[b'Z', b'o', 0xc3, 0xab]);
    assert_eq!(session.add_friend("\u{eb}".repeat(13)), None);
    let frame = session.request_warp_to_map("caf\u{e9}".to_string(), Vector2 { x: 1, y: 2 }).unwrap();
    assert_eq!(&frame[2..7], &[b'c', b'a', b'f', 0xc3, 0xa9]);
    assert_eq!(session.request_warp_to_map("\u{e9}".repeat(9), Vector2 { x: 1, y: 2 }), None);

    // a line with a zero character is sent with it
    let frame = session.send_message("a\0b".to_string()).unwrap();
    assert_eq!(frame, vec![0xf3, 0x00, 11, 0, b' ', b':', b' ', b'a', 0, b'b', 0]);
}

#[test]
fn a_failed_login_leaves_the_connections_as_they_were() {
    let mut session = logged_in(vec![character("Ann", 0)]);
    assert_eq!(session.state(), ConnectionState::CharacterServerConnected);
    session.log_in("u".to_string(), "p".to_string()).unwrap();
    assert_eq!(session.state(), ConnectionState::CharacterServerConnected);
    let failed = LoginFailedPacket2 { reason: LoginFailedReason2::IncorrectPassword };
    let error = session.login_response(&failed.to_bytes()).unwrap_err();
    assert_eq!(refusal(error), "incorrect password");
    assert_eq!(session.state(), ConnectionState::CharacterServerConnected);
    assert_eq!(session.awaited(), Awaited::Nothing);
    assert_eq!(session.characters().len(), 1);
    assert!(session.create_character(1, "Bob".to_string()).is_ok());

    let mut session = NetworkingSystem::new(LoginSettings::new());
    session.log_in("u".to_string(), "p".to_string()).unwrap();
    session.login_response(&failed.to_bytes()).unwrap_err();
    assert_eq!(session.state(), ConnectionState::Disconnected);
    assert!(matches!(session.create_character(1, "Bob".to_string()), Err(SessionError::OutOfOrder)));
}
