use lg_codec::io::IoError;
use lg_codec::writer::{ByteWriter, LgWriter};
use std::io::{Cursor, Seek, SeekFrom, Write};

#[test]
fn writes_follow_each_other() {
    let mut w = ByteWriter::new();
    assert_eq!(w.write_u8(7), Ok(1));
    assert_eq!(w.write_le_u16(0x1234), Ok(2));
    assert_eq!(w.write_le_u32(0x1234_5678), Ok(4));
    assert_eq!(w.write_le_i8(-128), Ok(1));
    assert_eq!(w.write_le_i8(127), Ok(1));
    assert_eq!(w.write_le_i16(-1000), Ok(2));
    assert_eq!(w.write_le_i32(-2), Ok(4));
    assert_eq!(w.write_le_i32_24(-2), Ok(()));
    assert_eq!(w.write_le_i32_24(0x0123_4567), Ok(()));
    assert_eq!(w.write_le_u64(0x0807_0605_0403_0201), Ok(8));
    assert_eq!(w.write_bytes(&[0xaa, 0xbb]), Ok(2));
    assert_eq!(w.stream_position(), Ok(31));
    assert_eq!(
        w.into_inner(),
        vec![
            7, 0x34, 0x12, 0x78, 0x56, 0x34, 0x12, 0x00, 0xff, 0x18, 0xfc, 0xfe, 0xff, 0xff, 0xff,
            0xfe, 0xff, 0xff, 0x67, 0x45, 0x23, 0x01, 0x02, 0x03, 0x04, 0x05, 0x06, 0x07, 0x08,
            0xaa, 0xbb,
        ]
    );
}

#[test]
fn a_write_in_the_middle_replaces_what_was_there() {
    let mut w = ByteWriter::new();
    w.write_bytes(&[1, 2, 3, 4, 5, 6]).unwrap();
    assert_eq!(w.go_to(2), Ok(2));
    assert_eq!(w.write_le_u16(0xbbaa), Ok(2));
    assert_eq!(w.stream_position(), Ok(4));
    assert_eq!(w.as_slice(), &[1, 2, 0xaa, 0xbb, 5, 6]);
    assert_eq!(w.go_to(5), Ok(5));
    assert_eq!(w.write_bytes(&[7, 8, 9]), Ok(3));
    assert_eq!(w.as_slice(), &[1, 2, 0xaa, 0xbb, 5, 7, 8, 9]);
}

#[test]
fn a_write_beyond_the_end_fills_the_gap_with_zeros() {
    let mut w = ByteWriter::new();
    w.write_u8(1).unwrap();
    w.go_to(4).unwrap();
    w.write_u8(2).unwrap();
    assert_eq!(w.as_slice(), &[1, 0, 0, 0, 2]);
}

#[test]
fn a_write_that_would_pass_the_last_offset_is_refused() {
    let mut w = ByteWriter::new();
    w.write_u8(1).unwrap();
    w.go_to(usize::MAX - 1).unwrap();
    assert_eq!(w.write_le_u16(1), Err(IoError::InvalidInput));
    assert_eq!(w.stream_position(), Ok(usize::MAX - 1));
    assert_eq!(w.as_slice(), &[1]);
}

#[test]
fn flush_changes_nothing() {
    let mut w = ByteWriter::new();
    w.write_bytes(&[1, 2, 3]).unwrap();
    assert_eq!(w.flush(), Ok(()));
    assert_eq!(w.stream_position(), Ok(3));
    assert_eq!(w.as_slice(), &[1, 2, 3]);
}

#[test]
fn behaves_as_a_cursor_over_a_vector() {
    let script: [(usize, &[u8]); 6] = [
        (0, &[1, 2, 3, 4]),
        (2, &[9, 9, 9]),
        (8, &[5]),
        (8, &[]),
        (12, &[]),
        (1, &[7, 7]),
    ];
    let mut ours = ByteWriter::new();
    let mut theirs = Cursor::new(Vec::new());
    for (at, data) in script {
        ours.go_to(at).unwrap();
        theirs.seek(SeekFrom::Start(at as u64)).unwrap();
        assert_eq!(ours.write_bytes(data), Ok(data.len()));
        theirs.write_all(data).unwrap();
        assert_eq!(ours.stream_position().unwrap() as u64, theirs.position());
    }
    let theirs = theirs.into_inner();
    let ours = ours.into_inner();
    assert_eq!(&ours[..theirs.len()], &theirs[..]);
    assert!(ours[theirs.len()..].iter().all(|b| *b == 0));
}
