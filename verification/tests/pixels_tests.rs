use second_screen::pixels::{argb, frame_message, frame_pixels, pack_argb, prepare_frame, rgba_to_rgb, video_message};
use second_screen::protocol::HostMessage;

fn png(width: u32, height: u32, rgba: Vec<u8>) -> Vec<u8> {
    let img = image::RgbaImage::from_raw(width, height, rgba).unwrap();
    let mut out = std::io::Cursor::new(Vec::new());
    img.write_to(&mut out, image::ImageFormat::Png).unwrap();
    out.into_inner()
}

#[test]
fn alpha_is_dropped() {
    assert_eq!(rgba_to_rgb(&[1, 2, 3, 4, 5, 6, 7, 8, 9]), vec![1, 2, 3, 5, 6, 7]);
}

#[test]
fn pixels_are_packed() {
    assert_eq!(argb(0x11, 0x22, 0x33, 0xff), 0xff11_2233);
    assert_eq!(pack_argb(&[1, 2, 3, 4, 5]), vec![0x0401_0203]);
}

#[test]
fn received_image_is_decoded() {
    let data = png(2, 1, vec![255, 0, 0, 255, 0, 0, 255, 128]);
    let (w, h, px) = frame_pixels(&data).unwrap();
    assert_eq!((w, h), (2, 1));
    assert_eq!(px, vec![0xffff_0000, 0x8000_00ff]);
    assert!(frame_pixels(&[1, 2, 3]).is_none());
}

#[test]
fn frame_of_the_configured_size_is_not_resized() {
    let rgb = prepare_frame(vec![1, 2, 3, 4, 5, 6, 7, 8], 2, 1, 2, 1);
    assert_eq!(rgb, vec![1, 2, 3, 5, 6, 7]);
}

#[test]
fn frame_of_another_size_is_resized() {
    let rgb = prepare_frame(vec![10, 20, 30, 255], 1, 1, 2, 2);
    assert_eq!(rgb, vec![10, 20, 30, 10, 20, 30, 10, 20, 30, 10, 20, 30]);
    assert_eq!(prepare_frame(vec![0; 16], 2, 2, 3, 1).len(), 3 * 1 * 3);
}

#[test]
fn captured_frame_is_sent_as_a_jpeg_the_client_decodes() {
    let rgba: Vec<u8> = (0..4 * 8 * 8).map(|i| if i % 4 == 3 { 255 } else { 200 }).collect();
    match frame_message(rgba, 8, 8, 16, 8) {
        Some(HostMessage::KlatkaObrazu { dane }) => {
            assert_eq!(&dane[..2], &[0xff, 0xd8]);
            let (w, h, px) = frame_pixels(&dane).unwrap();
            assert_eq!((w, h), (16, 8));
            assert_eq!(px.len(), 16 * 8);
        }
        other => panic!("unexpected {:?}", other),
    }
    assert!(frame_message(vec![0; 4], 1, 1, 0, 5).is_none());
    assert!(video_message(None).is_none());
}
