use ta_assets::buffer::Buffer;
use ta_assets::error::DecodeError;
use ta_assets::image::{decode_indices, paint, read_image, Frame};
use ta_assets::palette::{Palette, Rgb};

#[test]
fn skip_repeat_and_literal_runs_decode() {
    // 0x05: two transparent pixels; 0x12: the next byte five times; 0x00:
    // the next byte once
    let mut buf = Buffer::new(vec![5, 0, 0x05, 0x12, 0x07, 0x00, 0x03]);
    assert_eq!(decode_indices(&mut buf, 8, 1, 1), Ok(vec![0, 0, 7, 7, 7, 7, 7, 3]));
    assert_eq!(buf.position(), 0);
}

#[test]
fn repeat_count_is_the_control_byte_shifted_by_two_plus_one() {
    // 0x0E >> 2 is 3, so the byte is repeated four times
    let mut buf = Buffer::new(vec![5, 0, 0x05, 0x0E, 0x07, 0x00, 0x03]);
    assert_eq!(decode_indices(&mut buf, 7, 1, 1), Ok(vec![0, 0, 7, 7, 7, 7, 3]));
    assert_eq!(decode_indices(&mut buf, 8, 1, 1), Err(DecodeError::OutOfBounds));
    let mut buf = Buffer::new(vec![0, 0, 0x02, 0x09, 0xFE, 0x08]);
    let mut expected = vec![9];
    expected.extend_from_slice(&[8; 64]);
    assert_eq!(decode_indices(&mut buf, 65, 1, 1), Ok(expected));
}

#[test]
fn line_byte_count_is_stepped_over_unread() {
    let mut honest = Buffer::new(vec![5, 0, 0x05, 0x12, 0x07, 0x00, 0x03]);
    let mut lying = Buffer::new(vec![0xFF, 0xFF, 0x05, 0x12, 0x07, 0x00, 0x03]);
    let decoded = decode_indices(&mut honest, 8, 1, 1);
    assert!(decoded.is_ok());
    assert_eq!(decoded, decode_indices(&mut lying, 8, 1, 7));
}

#[test]
fn every_scanline_has_its_own_byte_count() {
    let data = vec![9, 9, 2, 0, 0x0A, 0x04, 4, 0, 0x03, 0x00, 0x09, 0x03, 1, 0, 0x07];
    let mut buf = Buffer::new(data);
    assert_eq!(buf.seek(2), Ok(()));
    assert_eq!(decode_indices(&mut buf, 3, 3, 1), Ok(vec![4, 4, 4, 0, 9, 0, 0, 0, 0]));
    assert_eq!(buf.position(), 2);
}

#[test]
fn literal_run_is_one_byte_whatever_the_upper_bits() {
    let mut buf = Buffer::new(vec![0, 0, 0xFC, 0x11, 0x04, 0x22, 0x00, 0x33]);
    assert_eq!(decode_indices(&mut buf, 3, 1, 1), Ok(vec![0x11, 0x22, 0x33]));
}

#[test]
fn run_is_cut_off_at_the_end_of_the_line() {
    let mut buf = Buffer::new(vec![0, 0, 0x12, 0x08, 0, 0, 0x09, 0x00, 0x01]);
    assert_eq!(decode_indices(&mut buf, 2, 2, 1), Ok(vec![8, 8, 0, 0]));
    let mut buf = Buffer::new(vec![0, 0, 0xFF]);
    assert_eq!(decode_indices(&mut buf, 100, 1, 1), Ok(vec![0; 100]));
}

#[test]
fn empty_skip_gives_no_pixel() {
    let mut buf = Buffer::new(vec![0, 0, 0x01, 0x01, 0x02, 0x06]);
    assert_eq!(decode_indices(&mut buf, 1, 1, 1), Ok(vec![6]));
    let mut buf = Buffer::new(vec![0, 0, 0x01, 0x01]);
    assert_eq!(decode_indices(&mut buf, 1, 1, 1), Err(DecodeError::OutOfBounds));
}

#[test]
fn truncated_scanline_is_out_of_bounds() {
    let mut buf = Buffer::new(vec![0, 0, 0x05, 0x0E]);
    assert_eq!(buf.seek(0), Ok(()));
    assert_eq!(decode_indices(&mut buf, 8, 1, 1), Err(DecodeError::OutOfBounds));
    let mut buf = Buffer::new(vec![0, 0, 0x05]);
    assert_eq!(decode_indices(&mut buf, 8, 1, 1), Err(DecodeError::OutOfBounds));
    let mut buf = Buffer::new(vec![0, 0, 0x07, 0]);
    assert_eq!(decode_indices(&mut buf, 3, 2, 1), Err(DecodeError::OutOfBounds));
    let mut buf = Buffer::new(vec![0]);
    assert_eq!(decode_indices(&mut buf, 0, 1, 1), Err(DecodeError::OutOfBounds));
}

#[test]
fn frame_without_pixels_reads_only_the_byte_counts() {
    let mut buf = Buffer::new(vec![0, 0, 0, 0]);
    assert_eq!(decode_indices(&mut buf, 0, 2, 1), Ok(Vec::new()));
    assert_eq!(decode_indices(&mut buf, 0, 3, 1), Err(DecodeError::OutOfBounds));
    assert_eq!(decode_indices(&mut buf, 5, 0, 1), Ok(Vec::new()));
    assert_eq!(decode_indices(&mut buf, 5, 0, 0), Ok(Vec::new()));
}

#[test]
fn uncompressed_frame_is_copied() {
    let mut buf = Buffer::new(vec![1, 2, 3, 4, 5, 6, 7]);
    assert_eq!(buf.seek(1), Ok(()));
    assert_eq!(decode_indices(&mut buf, 3, 2, 0), Ok(vec![2, 3, 4, 5, 6, 7]));
    assert_eq!(decode_indices(&mut buf, 2, 2, 0), Ok(vec![2, 3, 4, 5]));
    assert_eq!(decode_indices(&mut buf, 7, 1, 0), Err(DecodeError::OutOfBounds));
    assert_eq!(decode_indices(&mut buf, 300, 300, 0), Err(DecodeError::OutOfBounds));
    assert_eq!(buf.position(), 1);
}

#[test]
fn paint_looks_each_index_up() {
    let palette = Palette::standard();
    assert_eq!(
        paint(&palette, &vec![0, 255, 5]),
        vec![
            Rgb { r: 0, g: 0, b: 0 },
            Rgb { r: 255, g: 255, b: 255 },
            Rgb { r: 0, g: 36, b: 85 },
        ]
    );
    assert_eq!(paint(&palette, &Vec::new()), Vec::new());
}

#[test]
fn read_image_paints_the_decoded_indices() {
    let palette = Palette::standard();
    let mut buf = Buffer::new(vec![0, 0, 0x06, 0xE0, 0, 0, 0x03, 0x00, 0x03]);
    let frame = read_image(&mut buf, 2, 2, 1, &palette).ok().unwrap();
    assert_eq!(frame.width(), 2);
    assert_eq!(frame.height(), 2);
    let red = Rgb { r: 255, g: 0, b: 0 };
    let black = Rgb { r: 0, g: 0, b: 0 };
    let blue = Rgb { r: 0, g: 0, b: 255 };
    assert_eq!(frame.pixels(), &vec![red, red, black, blue]);
    assert_eq!(buf.position(), 0);
    assert!(matches!(read_image(&mut buf, 2, 3, 1, &palette), Err(DecodeError::OutOfBounds)));
}

#[test]
fn frame_wants_width_times_height_pixels() {
    let black = Rgb { r: 0, g: 0, b: 0 };
    assert!(Frame::new(2, 3, vec![black; 6]).is_some());
    assert!(Frame::new(2, 3, vec![black; 5]).is_none());
    assert!(Frame::new(2, 3, vec![black; 7]).is_none());
    assert!(Frame::new(0, 3, Vec::new()).is_some());
    assert!(Frame::new(0, 0, vec![black]).is_none());
}
