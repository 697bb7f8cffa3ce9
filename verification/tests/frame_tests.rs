use second_screen::frame::{decode_frame_header, encode_frame, encode_frame_header};

#[test]
fn header_is_big_endian() {
    assert_eq!(encode_frame_header(0x0102_0304), [1, 2, 3, 4]);
    assert_eq!(encode_frame_header(5), [0, 0, 0, 5]);
    assert_eq!(decode_frame_header([0, 0, 1, 0]), 256);
    assert_eq!(decode_frame_header([0xff, 0xff, 0xff, 0xff]), 0xffff_ffff);
}

#[test]
fn frame_roundtrip() {
    let payload = vec![9u8, 8, 7];
    let frame = encode_frame(&payload);
    assert_eq!(frame, vec![0, 0, 0, 3, 9, 8, 7]);
    let len = decode_frame_header([frame[0], frame[1], frame[2], frame[3]]);
    assert_eq!(&frame[4..4 + len], &payload[..]);
    assert_eq!(encode_frame(&[]), vec![0, 0, 0, 0]);
}

