use lg_codec::io::IoError;
use lg_codec::reader::{ByteReader, LgReader};

#[test]
fn bytes_come_in_order() {
    let mut r = ByteReader::new(vec![1, 2, 3, 4, 5, 6, 7]);
    assert_eq!(r.position(), 0);
    assert_eq!(r.read_u8(), Ok(1));
    assert_eq!(r.read_next_bytes(2), Ok(vec![2, 3]));
    assert_eq!(r.read_exact_n(3), Ok(vec![4, 5, 6]));
    assert_eq!(r.position(), 6);
    assert_eq!(r.read_next_bytes(0), Ok(vec![]));
    assert_eq!(r.read_u8(), Ok(7));
    assert_eq!(r.read_u8(), Err(IoError::UnexpectedEof));
}

#[test]
fn a_read_that_cannot_be_met_consumes_nothing() {
    let mut r = ByteReader::new(vec![1, 2, 3]);
    assert_eq!(r.read_le_u32(), Err(IoError::UnexpectedEof));
    assert_eq!(r.position(), 0);
    assert_eq!(r.read_next_bytes(4), Err(IoError::UnexpectedEof));
    assert_eq!(r.skip_next_bytes(4), Err(IoError::UnexpectedEof));
    assert_eq!(r.read_next_bytes(3), Ok(vec![1, 2, 3]));
}

#[test]
fn read_into_fills_the_whole_buffer() {
    let mut r = ByteReader::new(vec![9, 8, 7, 6]);
    let mut buf = vec![0u8; 3];
    assert_eq!(r.read_into(&mut buf), Ok(()));
    assert_eq!(buf, vec![9, 8, 7]);
    let mut big = vec![5u8; 2];
    assert_eq!(r.read_into(&mut big), Err(IoError::UnexpectedEof));
    assert_eq!(big, vec![5, 5]);
    assert_eq!(r.read_u8(), Ok(6));
}

#[test]
fn skip_passes_over_bytes() {
    let mut r = ByteReader::new(vec![1, 2, 3, 4]);
    assert_eq!(r.skip_next_bytes(3), Ok(()));
    assert_eq!(r.read_u8(), Ok(4));
    assert_eq!(r.skip_next_bytes(0), Ok(()));
    assert_eq!(r.skip_next_bytes(1), Err(IoError::UnexpectedEof));
}

#[test]
fn little_endian_accessors() {
    let mut r = ByteReader::new(vec![
        0x34, 0x12, // u16
        0x78, 0x56, 0x34, 0x12, // u32
        0x00, // i8: -128
        0xff, // i8: 127
        0x18, 0xfc, // i16: -1000
        0xfe, 0xff, 0xff, 0xff, // i32: -2
        0x00, 0x00, 0x80, // 24 bits: -8388608
        0xff, 0xff, 0x7f, // 24 bits: 8388607
        0x01, 0x02, 0x03, 0x04, 0x05, 0x06, 0x07, 0x08, // u64
    ]);
    assert_eq!(r.read_le_u16(), Ok(0x1234));
    assert_eq!(r.read_le_u32(), Ok(0x1234_5678));
    assert_eq!(r.read_le_i8(), Ok(-128));
    assert_eq!(r.read_le_i8(), Ok(127));
    assert_eq!(r.read_le_i16(), Ok(-1000));
    assert_eq!(r.read_le_i32(), Ok(-2));
    assert_eq!(r.read_le_i32_24(), Ok(-8_388_608));
    assert_eq!(r.read_le_i32_24(), Ok(8_388_607));
    assert_eq!(r.read_le_u64(), Ok(0x0807_0605_0403_0201));
    assert_eq!(r.read_le_i8(), Err(IoError::UnexpectedEof));
}

#[test]
fn big_endian_accessors() {
    let mut r = ByteReader::new(vec![
        0x12, 0x34, // u16
        0x12, 0x34, 0x56, 0x78, // u32
        0xfc, 0x18, // i16: -1000
        0xff, 0xff, 0xff, 0xfe, // i32: -2
    ]);
    assert_eq!(r.read_be_u16(), Ok(0x1234));
    assert_eq!(r.read_be_u32(), Ok(0x1234_5678));
    assert_eq!(r.read_be_i16(), Ok(-1000));
    assert_eq!(r.read_be_i32(), Ok(-2));
    assert_eq!(r.read_be_u16(), Err(IoError::UnexpectedEof));
}
