use ta_assets::buffer::Buffer;
use ta_assets::error::DecodeError;

#[test]
fn new_buffer_starts_at_zero() {
    let buf = Buffer::new(vec![9, 8, 7]);
    assert_eq!(buf.position(), 0);
    assert_eq!(buf.len(), 3);
    assert_eq!(buf.read(3).unwrap(), &[9u8, 8, 7][..]);
}

#[test]
fn read_does_not_move_the_cursor() {
    let mut buf = Buffer::new(vec![1, 2, 3, 4, 5]);
    assert_eq!(buf.seek(1), Ok(()));
    assert_eq!(buf.read(2).unwrap(), &[2u8, 3u8][..]);
    assert_eq!(buf.position(), 1);
    assert_eq!(buf.read(4).unwrap(), &[2u8, 3, 4, 5][..]);
    assert_eq!(buf.read(5), Err(DecodeError::OutOfBounds));
    assert_eq!(buf.position(), 1);
}

#[test]
fn read_of_nothing_at_the_end_succeeds() {
    let mut buf = Buffer::new(vec![1, 2]);
    assert_eq!(buf.seek(2), Ok(()));
    assert_eq!(buf.read(0).unwrap(), &[0u8; 0][..]);
    assert_eq!(buf.read(1), Err(DecodeError::OutOfBounds));
    assert_eq!(buf.read_u8(), Err(DecodeError::OutOfBounds));
}

#[test]
fn seek_beyond_the_end_fails_and_stays() {
    let mut buf = Buffer::new(vec![1, 2, 3]);
    assert_eq!(buf.seek(3), Ok(()));
    assert_eq!(buf.position(), 3);
    assert_eq!(buf.seek(4), Err(DecodeError::OutOfBounds));
    assert_eq!(buf.position(), 3);
    assert_eq!(buf.seek_to(1), Ok(()));
    assert_eq!(buf.seek_to(usize::MAX), Err(DecodeError::OutOfBounds));
    assert_eq!(buf.position(), 1);
}

#[test]
fn seek_relative_moves_both_ways() {
    let mut buf = Buffer::new(vec![0; 10]);
    assert_eq!(buf.seek_relative(4), Ok(()));
    assert_eq!(buf.position(), 4);
    assert_eq!(buf.seek_relative(-3), Ok(()));
    assert_eq!(buf.position(), 1);
    assert_eq!(buf.seek_relative(9), Ok(()));
    assert_eq!(buf.position(), 10);
    assert_eq!(buf.seek_relative(0), Ok(()));
    assert_eq!(buf.position(), 10);
}

#[test]
fn seek_relative_out_of_the_buffer_fails_and_stays() {
    let mut buf = Buffer::new(vec![0; 10]);
    assert_eq!(buf.seek(5), Ok(()));
    assert_eq!(buf.seek_relative(6), Err(DecodeError::OutOfBounds));
    assert_eq!(buf.position(), 5);
    assert_eq!(buf.seek_relative(-6), Err(DecodeError::OutOfBounds));
    assert_eq!(buf.position(), 5);
    assert_eq!(buf.seek_relative(i64::MIN), Err(DecodeError::OutOfBounds));
    assert_eq!(buf.seek_relative(i64::MAX), Err(DecodeError::OutOfBounds));
    assert_eq!(buf.position(), 5);
    assert_eq!(buf.seek_relative(-5), Ok(()));
    assert_eq!(buf.position(), 0);
}

#[test]
fn read_string_stops_at_the_first_zero() {
    let mut buf = Buffer::new(b"ab\0cd\0".to_vec());
    assert_eq!(buf.read_string(), Ok(b"ab".to_vec()));
    assert_eq!(buf.position(), 0);
    assert_eq!(buf.seek(2), Ok(()));
    assert_eq!(buf.read_string(), Ok(Vec::new()));
    assert_eq!(buf.seek(3), Ok(()));
    assert_eq!(buf.read_string(), Ok(b"cd".to_vec()));
}

#[test]
fn read_string_without_terminator_fails() {
    let mut buf = Buffer::new(b"ab\0cd".to_vec());
    assert_eq!(buf.seek(3), Ok(()));
    assert_eq!(buf.read_string(), Err(DecodeError::MissingTerminator));
    assert_eq!(buf.seek(5), Ok(()));
    assert_eq!(buf.read_string(), Err(DecodeError::MissingTerminator));
    let empty = Buffer::new(Vec::new());
    assert_eq!(empty.read_string(), Err(DecodeError::MissingTerminator));
}

#[test]
fn read_string_keeps_bytes_that_are_not_text() {
    let buf = Buffer::new(vec![0xFF, 0xFE, 0x80, 0]);
    assert_eq!(buf.read_string(), Ok(vec![0xFF, 0xFE, 0x80]));
}

#[test]
fn multi_byte_integers_are_little_endian() {
    let mut buf = Buffer::new(vec![0x78, 0x56, 0x34, 0x12, 0xFF, 0xFF, 0xFF, 0xFF]);
    assert_eq!(buf.read_u8(), Ok(0x78));
    assert_eq!(buf.read_u16(), Ok(0x5678));
    assert_eq!(buf.read_u32(), Ok(0x1234_5678));
    assert_eq!(buf.read_i32(), Ok(0x1234_5678));
    assert_eq!(buf.seek(4), Ok(()));
    assert_eq!(buf.read_i32(), Ok(-1));
    assert_eq!(buf.read_u32(), Ok(0xFFFF_FFFF));
    assert_eq!(buf.read_u16(), Ok(0xFFFF));
    assert_eq!(buf.seek(5), Ok(()));
    assert_eq!(buf.read_u32(), Err(DecodeError::OutOfBounds));
    assert_eq!(buf.read_i32(), Err(DecodeError::OutOfBounds));
    assert_eq!(buf.seek(7), Ok(()));
    assert_eq!(buf.read_u16(), Err(DecodeError::OutOfBounds));
    assert_eq!(buf.read_u8(), Ok(0xFF));
}

#[test]
fn signed_integers_are_twos_complement() {
    let buf = Buffer::new(vec![0x00, 0x00, 0x00, 0x80]);
    assert_eq!(buf.read_i32(), Ok(i32::MIN));
    let buf = Buffer::new(vec![0xFF, 0xFF, 0xFF, 0x7F]);
    assert_eq!(buf.read_i32(), Ok(i32::MAX));
    let buf = Buffer::new(vec![0x18, 0xFC, 0xFF, 0xFF]);
    assert_eq!(buf.read_i32(), Ok(-1000));
}
