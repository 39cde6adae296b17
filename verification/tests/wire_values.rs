use korangar::loaders::{ByteConvertable, ByteStream, ConversionError};
use korangar::network::ids::{AccountId, ItemIndex};
use korangar::network::position::{WorldPosition, WorldPosition2};

#[test]
fn unsigned_integers_are_little_endian() {
    let data = [0x34, 0x12, 0x78, 0x56, 0x34, 0x12, 1, 2, 3, 4, 5, 6, 7, 8];
    let mut stream = ByteStream::new(&data);
    assert_eq!(u16::from_bytes(&mut stream, None), Ok(0x1234));
    assert_eq!(u32::from_bytes(&mut stream, None), Ok(0x12345678));
    assert_eq!(u64::from_bytes(&mut stream, None), Ok(0x0807060504030201));
    assert!(stream.is_empty());
    assert_eq!(0x1234u16.to_bytes(None), vec![0x34, 0x12]);
    assert_eq!(0x12345678u32.to_bytes(None), vec![0x78, 0x56, 0x34, 0x12]);
    assert_eq!(0x0807060504030201u64.to_bytes(None), vec![1, 2, 3, 4, 5, 6, 7, 8]);
}

#[test]
fn signed_integers_are_twos_complement() {
    let data = [0xff, 0xfe, 0xff, 0x00, 0x00, 0x00, 0x80];
    let mut stream = ByteStream::new(&data);
    assert_eq!(i8::from_bytes(&mut stream, None), Ok(-1));
    assert_eq!(i16::from_bytes(&mut stream, None), Ok(-2));
    assert_eq!(i32::from_bytes(&mut stream, None), Ok(i32::MIN));
    assert_eq!((-1i8).to_bytes(None), vec![0xff]);
    assert_eq!((-2i16).to_bytes(None), vec![0xfe, 0xff]);
    assert_eq!(i32::MIN.to_bytes(None), vec![0, 0, 0, 0x80]);
    assert_eq!((-1i64).to_bytes(None), vec![0xff; 8]);
}

#[test]
fn reading_past_the_end_is_an_error() {
    let data = [1, 2, 3];
    let mut stream = ByteStream::new(&data);
    assert_eq!(u32::from_bytes(&mut stream, None), Err(ConversionError::Incomplete));
    assert_eq!(stream.get_offset(), 0);
    assert_eq!(u16::from_bytes(&mut stream, None), Ok(0x0201));
    assert_eq!(u16::from_bytes(&mut stream, None), Err(ConversionError::Incomplete));
    assert_eq!(stream.get_offset(), 2);
}

#[test]
fn strings_end_at_the_first_zero_byte() {
    let data = [b'a', b'b', 0, b'c', b'd', b'e'];
    let mut stream = ByteStream::new(&data);
    assert_eq!(String::from_bytes(&mut stream, Some(4)), Ok("ab".to_string()));
    assert_eq!(stream.get_offset(), 4);
    assert_eq!(String::from_bytes(&mut stream, Some(2)), Ok("de".to_string()));
    assert_eq!("ab".to_string().to_bytes(Some(4)), vec![b'a', b'b', 0, 0]);
    assert_eq!("ab".to_string().to_bytes(None), vec![b'a', b'b', 0]);
}

#[test]
fn world_position_round_trip() {
    for (x, y) in [(0usize, 0usize), (1, 2), (255, 256), (1023, 1023), (512, 3), (100, 1000)] {
        let bytes = WorldPosition::new(x, y).to_bytes(None);
        assert_eq!(bytes.len(), 3);
        let mut stream = ByteStream::new(&bytes);
        let position = WorldPosition::from_bytes(&mut stream, None).unwrap();
        assert_eq!((position.x, position.y), (x, y));
    }
    assert_eq!(WorldPosition::new(1023, 1023).to_bytes(None), vec![0xff, 0xff, 0xf0]);
    assert_eq!(WorldPosition::new(1, 2).to_bytes(None), vec![0x00, 0x40, 0x20]);
}

#[test]
fn world_position2_round_trip() {
    let bytes = WorldPosition2::new(1023, 0, 513, 700).to_bytes(None);
    assert_eq!(bytes.len(), 6);
    let mut stream = ByteStream::new(&bytes);
    let position = WorldPosition2::from_bytes(&mut stream, None).unwrap();
    assert_eq!((position.x1, position.y1, position.x2, position.y2), (1023, 0, 513, 700));
    let (from, to) = position.to_vectors();
    assert_eq!((from.x, from.y, to.x, to.y), (1023, 0, 513, 700));
}

#[test]
fn item_index_is_two_less_than_its_wire_value() {
    for wire in [2u16, 3, 100, 65535] {
        let bytes = wire.to_bytes(None);
        let mut stream = ByteStream::new(&bytes);
        let index = ItemIndex::from_bytes(&mut stream, None).unwrap();
        assert_eq!(index.value(), wire - 2);
        assert_eq!(index.to_bytes(None), bytes);
    }
    let data = [1, 0];
    let mut stream = ByteStream::new(&data);
    assert_eq!(ItemIndex::from_bytes(&mut stream, None), Err(ConversionError::Invalid));
}

#[test]
fn account_id_is_four_bytes() {
    assert_eq!(AccountId(2000001).to_bytes(None), vec![0x81, 0x84, 0x1e, 0x00]);
}
