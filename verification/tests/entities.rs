use cgmath::Vector2;
use korangar::loaders::{ByteConvertable, ByteStream};
use korangar::network::character::CharacterInformation;
use korangar::network::dispatch::{dispatch, Remainder};
use korangar::network::entity::{EntityAppearedPacket, MovingEntityAppearedPacket};
use korangar::network::event::{EntityData, NetworkEvent};
use korangar::network::ids::{AccountId, CharacterId, EntityId, Sex};
use korangar::network::position::{WorldPosition, WorldPosition2};
use korangar::network::Packet;

fn appeared() -> EntityAppearedPacket {
    EntityAppearedPacket {
        packet_length: 107,
        object_type: 5,
        entity_id: EntityId(110000),
        group_id: 0,
        movement_speed: 200,
        body_state: 0,
        health_state: 0,
        effect_state: 0,
        job: 1002,
        head: 0,
        weapon: 0,
        shield: 0,
        accessory: 0,
        accessory2: 0,
        accessory3: 0,
        head_palette: 0,
        body_palette: 0,
        head_direction: 2,
        robe: 0,
        guild_id: 0,
        emblem_version: 0,
        honor: 0,
        virtue: 0,
        is_pk_mode_on: 0,
        sex: Sex::Female,
        position: WorldPosition::new(50, 60),
        x_size: 5,
        y_size: 5,
        c_level: 3,
        font: 0,
        maximum_health_points: 55,
        health_points: 50,
        is_boss: 0,
        body: 0,
        name: "Poring".to_string(),
    }
}

#[test]
fn an_entity_that_appears_is_added() {
    let bytes = appeared().to_bytes();
    assert_eq!(bytes.len(), 107);
    assert_eq!(&bytes[..4], &[0xfe, 0x09, 107, 0]);
    let mut stream = ByteStream::new(&bytes);
    let decoded = EntityAppearedPacket::try_from_bytes(&mut stream).unwrap();
    assert_eq!(decoded.name, "Poring");
    assert_eq!(decoded.job, 1002);
    assert_eq!((decoded.position.x, decoded.position.y), (50, 60));

    let mut friends = Vec::new();
    let (events, remainder) = dispatch(&bytes, &mut friends);
    assert!(matches!(remainder, Remainder::Nothing));
    match &events[0] {
        NetworkEvent::AddEntity(entity) => {
            assert_eq!(entity.entity_id, EntityId(110000));
            assert_eq!(entity.movement_speed, 200);
            assert_eq!(entity.job, 1002);
            assert_eq!(entity.position, Vector2::new(50, 60));
            assert_eq!(entity.destination, None);
            assert_eq!(entity.health_points, 50);
            assert_eq!(entity.maximum_health_points, 55);
            assert_eq!(entity.head_direction, 2);
            assert_eq!(entity.sex, Sex::Female);
        }
        _ => panic!("expected an entity"),
    }
    // a frame whose length is not that of its layout does not decode
    let mut bytes = bytes;
    bytes[2] = 108;
    bytes.push(0);
    let (events, remainder) = dispatch(&bytes, &mut friends);
    assert!(events.is_empty());
    assert!(matches!(remainder, Remainder::Invalid(_)));
}

#[test]
fn an_entity_on_its_way_has_a_destination() {
    let resting = appeared();
    let packet = MovingEntityAppearedPacket {
        packet_length: 114,
        object_type: resting.object_type,
        entity_id: resting.entity_id,
        group_id: 0,
        movement_speed: 150,
        body_state: 0,
        health_state: 0,
        effect_state: 0,
        job: 7,
        head: 0,
        weapon: 0,
        shield: 0,
        accessory: 0,
        move_start_time: 1000,
        accessory2: 0,
        accessory3: 0,
        head_palette: 0,
        body_palette: 0,
        head_direction: 0,
        robe: 0,
        guild_id: 0,
        emblem_version: 0,
        honor: 0,
        virtue: 0,
        is_pk_mode_on: 0,
        sex: Sex::Male,
        position: WorldPosition2::new(10, 11, 12, 13),
        x_size: 5,
        y_size: 5,
        c_level: 1,
        font: 0,
        maximum_health_points: 100,
        health_points: 90,
        is_boss: 0,
        body: 0,
        name: "Ann".to_string(),
    };
    let entity = EntityData::from(packet);
    assert_eq!(entity.position, Vector2::new(10, 11));
    assert_eq!(entity.destination, Some(Vector2::new(12, 13)));
    assert_eq!(entity.health_points, 90);
    assert_eq!(entity.sex, Sex::Male);
    let entity = EntityData::from(appeared());
    assert_eq!(entity.position, Vector2::new(50, 60));
    assert_eq!(entity.destination, None);
}

#[test]
fn the_entity_of_a_character_is_cut_to_its_widths() {
    let bytes = vec![0u8; 175];
    let mut stream = ByteStream::new(&bytes);
    let mut character = CharacterInformation::from_bytes(&mut stream, None).unwrap();
    character.character_id = CharacterId(9);
    character.movement_speed = -1;
    character.job = 4001;
    character.health_points = 0x1_0000_0005;
    character.maximum_health_points = -1;
    character.sex = Sex::Male;
    let entity = EntityData::from_character(AccountId(2000000), character, Vector2::new(3, 4));
    assert_eq!(entity.entity_id, EntityId(2000000));
    assert_eq!(entity.movement_speed, 65535);
    assert_eq!(entity.job, 4001);
    assert_eq!(entity.position, Vector2::new(3, 4));
    assert_eq!(entity.destination, None);
    assert_eq!(entity.health_points, 5);
    assert_eq!(entity.maximum_health_points, -1);
    assert_eq!(entity.head_direction, 0);
    assert_eq!(entity.sex, Sex::Male);
}
