use korangar::loaders::{ByteConvertable, ByteStream, ConversionError};
use korangar::network::status::{UpdateStatusPacket, UpdateStatusPacket1, UpdateStatusPacket2, UpdateStatusPacket3};
use korangar::network::status_type::StatusType;
use korangar::network::Packet;

#[test]
fn base_level_is_code_eleven() {
    for level in [0u32, 1, 99, 0x01020304, u32::MAX] {
        let mut data = vec![11, 0];
        data.extend(level.to_le_bytes());
        let mut stream = ByteStream::new(&data);
        assert_eq!(StatusType::from_bytes(&mut stream, Some(6)), Ok(StatusType::BaseLevel(level)));
        assert!(stream.is_empty());
        assert_eq!(StatusType::BaseLevel(level).to_bytes(Some(6)), data);
    }
}

#[test]
fn unassigned_codes_fail() {
    for code in [9999u16, 10, 19, 21, 26, 54, 100, 234, 253, 65535] {
        let mut data = code.to_le_bytes().to_vec();
        data.extend([1, 2, 3, 4, 5, 6, 7, 8, 9, 10]);
        let mut stream = ByteStream::new(&data);
        assert_eq!(StatusType::from_bytes(&mut stream, Some(12)), Err(ConversionError::Invalid));
        assert_eq!(stream.get_offset(), 0);
    }
}

#[test]
fn the_code_gives_the_shape() {
    let data = [1, 0, 1, 2, 3, 4, 5, 6, 7, 8];
    let mut stream = ByteStream::new(&data);
    assert_eq!(StatusType::from_bytes(&mut stream, Some(10)), Ok(StatusType::BaseExperience(0x0807060504030201)));
    let data = [13, 0, 5, 0, 0, 0, 7, 0, 0, 0, 0xee, 0xee];
    let mut stream = ByteStream::new(&data);
    assert_eq!(StatusType::from_bytes(&mut stream, Some(12)), Ok(StatusType::Strength(5, 7)));
    assert_eq!(stream.get_offset(), 12);
    let data = [32, 0, 9];
    let mut stream = ByteStream::new(&data);
    assert_eq!(StatusType::from_bytes(&mut stream, Some(3)), Ok(StatusType::SpUstr(9)));
    let data = [99, 0, 3, 0, 4, 0, 0, 0, 5, 0, 0, 0];
    let mut stream = ByteStream::new(&data);
    assert_eq!(StatusType::from_bytes(&mut stream, Some(12)), Ok(StatusType::CartInfo(3, 4, 5)));
    let data = [252, 0, 1, 0xaa, 0xbb];
    let mut stream = ByteStream::new(&data);
    assert_eq!(StatusType::from_bytes(&mut stream, Some(5)), Ok(StatusType::SpUcrt(1)));
    assert_eq!(stream.get_offset(), 5);
}

#[test]
fn a_value_that_does_not_fit_its_hint_fails() {
    // eight bytes of experience do not fit a value of six bytes
    let data = [1, 0, 1, 2, 3, 4, 5, 6, 7, 8];
    let mut stream = ByteStream::new(&data);
    assert_eq!(StatusType::from_bytes(&mut stream, Some(6)), Err(ConversionError::Invalid));
    // too few bytes for the hint
    let mut stream = ByteStream::new(&data[..5]);
    assert_eq!(StatusType::from_bytes(&mut stream, Some(6)), Err(ConversionError::Incomplete));
    let mut stream = ByteStream::new(&data);
    assert_eq!(StatusType::from_bytes(&mut stream, Some(1)), Err(ConversionError::Invalid));
}

#[test]
fn encoding_pads_to_the_hint() {
    assert_eq!(StatusType::Strength(5, 7).to_bytes(Some(12)), vec![13, 0, 5, 0, 0, 0, 7, 0, 0, 0, 0, 0]);
    assert_eq!(StatusType::Zeny(0x01020304).to_bytes(Some(6)), vec![20, 0, 4, 3, 2, 1]);
    assert_eq!(StatusType::SpUluk(3).to_bytes(Some(3)), vec![37, 0, 3]);
    assert_eq!(StatusType::NextJobExperience(1).to_bytes(Some(10)), vec![23, 0, 1, 0, 0, 0, 0, 0, 0, 0]);
}

#[test]
fn status_packets_give_the_value_its_width() {
    let data = [0xb0, 0x00, 5, 0, 100, 0, 0, 0];
    let mut stream = ByteStream::new(&data);
    assert_eq!(UpdateStatusPacket::try_from_bytes(&mut stream).unwrap().status_type, StatusType::HealthPoints(100));
    let data = [0x41, 0x01, 14, 0, 1, 0, 0, 0, 2, 0, 0, 0, 0, 0];
    let mut stream = ByteStream::new(&data);
    assert_eq!(UpdateStatusPacket1::try_from_bytes(&mut stream).unwrap().status_type, StatusType::Agility(1, 2));
    assert!(stream.is_empty());
    let data = [0xcb, 0x0a, 22, 0, 9, 0, 0, 0, 0, 0, 0, 0];
    let mut stream = ByteStream::new(&data);
    assert_eq!(UpdateStatusPacket2::try_from_bytes(&mut stream).unwrap().status_type, StatusType::NextBaseExperience(9));
    let data = [0xbe, 0x00, 33, 0, 4];
    let mut stream = ByteStream::new(&data);
    assert_eq!(UpdateStatusPacket3::try_from_bytes(&mut stream).unwrap().status_type, StatusType::SpUagi(4));
    let data = [0xb0, 0x00, 0x0f, 0x27, 100, 0, 0, 0];
    let mut stream = ByteStream::new(&data);
    assert_eq!(UpdateStatusPacket::try_from_bytes(&mut stream).err(), Some(ConversionError::Invalid));
}
