//! Pixel work on captured and received frames: resizing and dropping alpha,
//! JPEG encoding for the wire, decoding and packing received pixels for the
//! window; the image crate does the resizing and the codecs.
use vstd::prelude::*;
use crate::protocol::HostMessage;

verus! {

/// The red, green and blue bytes of each complete 4-byte RGBA pixel, in order.
pub open spec fn spec_rgb_of(rgba: Seq<u8>) -> Seq<u8> {
    Seq::new((rgba.len() / 4 * 3) as nat, |i: int| rgba[(i / 3) * 4 + i % 3])
}

/// One pixel as a window buffer holds it: alpha, red, green, blue from the
/// most significant byte down.
pub open spec fn spec_argb(r: u8, g: u8, b: u8, a: u8) -> u32 {
    (a * 0x100_0000 + r * 0x1_0000 + g * 0x100 + b) as u32
}

/// Each complete 4-byte RGBA pixel, packed as a window buffer holds it.
pub open spec fn spec_pack_argb(rgba: Seq<u8>) -> Seq<u32> {
    Seq::new(
        (rgba.len() / 4) as nat,
        |i: int| spec_argb(rgba[4 * i], rgba[4 * i + 1], rgba[4 * i + 2], rgba[4 * i + 3]),
    )
}

/// Dropping alpha keeps, for each complete pixel in order, its red, green and
/// blue bytes: three bytes per pixel, the `c`-th byte of pixel `i` at `3i + c`.
pub proof fn lemma_rgb_of(rgba: Seq<u8>)
    ensures
        spec_rgb_of(rgba).len() == rgba.len() / 4 * 3,
        forall|i: int, c: int| 0 <= i < rgba.len() / 4 && 0 <= c < 3 ==>
            #[trigger] spec_rgb_of(rgba)[3 * i + c] == rgba[4 * i + c],
{
    assert forall|i: int, c: int| 0 <= i < rgba.len() / 4 && 0 <= c < 3 implies
        #[trigger] spec_rgb_of(rgba)[3 * i + c] == rgba[4 * i + c] by {
        assert((3 * i + c) / 3 == i && (3 * i + c) % 3 == c) by (nonlinear_arith)
            requires
                0 <= c < 3,
                0 <= i,
        ;
        assert(3 * i + c < rgba.len() / 4 * 3) by (nonlinear_arith)
            requires
                0 <= c < 3,
                0 <= i < rgba.len() / 4,
        ;
    }
}

/// A packed pixel gives back its bytes: alpha in the top byte, then red,
/// green and blue.
pub proof fn lemma_argb_bytes(r: u8, g: u8, b: u8, a: u8)
    ensures
        spec_argb(r, g, b, a) / 0x100_0000 == a,
        spec_argb(r, g, b, a) / 0x1_0000 % 0x100 == r,
        spec_argb(r, g, b, a) / 0x100 % 0x100 == g,
        spec_argb(r, g, b, a) % 0x100 == b,
{
    let v: int = a * 0x100_0000 + r * 0x1_0000 + g * 0x100 + b;
    assert(0 <= v < 0x1_0000_0000) by (nonlinear_arith)
        requires
            v == a * 0x100_0000 + r * 0x1_0000 + g * 0x100 + b,
            a < 256,
            r < 256,
            g < 256,
            b < 256,
    ;
    assert(v / 0x100_0000 == a && v / 0x1_0000 % 0x100 == r && v / 0x100 % 0x100 == g && v % 0x100 == b) by (nonlinear_arith)
        requires
            v == a * 0x100_0000 + r * 0x1_0000 + g * 0x100 + b,
            0 <= a < 256,
            0 <= r < 256,
            0 <= g < 256,
            0 <= b < 256,
    ;
}

/// Packing makes one value per complete pixel, in order, from that pixel's bytes.
pub proof fn lemma_pack_argb(rgba: Seq<u8>)
    ensures
        spec_pack_argb(rgba).len() == rgba.len() / 4,
        forall|i: int| 0 <= i < rgba.len() / 4 ==> {
            let p = #[trigger] spec_pack_argb(rgba)[i];
            &&& p / 0x100_0000 == rgba[4 * i + 3]
            &&& p / 0x1_0000 % 0x100 == rgba[4 * i]
            &&& p / 0x100 % 0x100 == rgba[4 * i + 1]
            &&& p % 0x100 == rgba[4 * i + 2]
        },
{
    assert forall|i: int| 0 <= i < rgba.len() / 4 implies {
        let p = #[trigger] spec_pack_argb(rgba)[i];
        &&& p / 0x100_0000 == rgba[4 * i + 3]
        &&& p / 0x1_0000 % 0x100 == rgba[4 * i]
        &&& p / 0x100 % 0x100 == rgba[4 * i + 1]
        &&& p % 0x100 == rgba[4 * i + 2]
    } by {
        lemma_argb_bytes(rgba[4 * i], rgba[4 * i + 1], rgba[4 * i + 2], rgba[4 * i + 3]);
    }
}

/// Drops the alpha byte of every RGBA pixel: the raw RGB24 input of the encoder.
pub fn rgba_to_rgb(rgba: &[u8]) -> (rgb: Vec<u8>)
    ensures
        rgb@ == spec_rgb_of(rgba@),
{
    let len = rgba.len();
    let n = len / 4;
    let mut rgb: Vec<u8> = Vec::new();
    for k in 0..n
        invariant
            n == rgba@.len() / 4,
            len == rgba@.len(),
            rgb@ == spec_rgb_of(rgba@).take(3 * k),
    {
        assert(4 * k + 3 < rgba@.len()) by (nonlinear_arith)
            requires
                k < n,
                n == rgba@.len() / 4,
            len == rgba@.len(),
        ;
        rgb.push(rgba[4 * k]);
        rgb.push(rgba[4 * k + 1]);
        rgb.push(rgba[4 * k + 2]);
        assert(rgb@ =~= spec_rgb_of(rgba@).take(3 * (k + 1)));
    }
    assert(spec_rgb_of(rgba@).take(3 * n) =~= spec_rgb_of(rgba@));
    rgb
}

/// Packs one pixel.
pub fn argb(r: u8, g: u8, b: u8, a: u8) -> (p: u32)
    ensures
        p == spec_argb(r, g, b, a),
{
    let (a32, r32, g32, b32) = (a as u32, r as u32, g as u32, b as u32);
    let p = (a32 << 24) | (r32 << 16) | (g32 << 8) | b32;
    assert(p == a32 * 0x100_0000 + r32 * 0x1_0000 + g32 * 0x100 + b32) by (bit_vector)
        requires
            p == (a32 << 24) | (r32 << 16) | (g32 << 8) | b32,
            a32 < 256,
            r32 < 256,
            g32 < 256,
            b32 < 256,
    ;
    p
}

/// Packs every RGBA pixel as a window buffer holds it.
pub fn pack_argb(rgba: &[u8]) -> (pixels: Vec<u32>)
    ensures
        pixels@ == spec_pack_argb(rgba@),
{
    let len = rgba.len();
    let n = len / 4;
    let mut pixels: Vec<u32> = Vec::new();
    for k in 0..n
        invariant
            n == rgba@.len() / 4,
            len == rgba@.len(),
            pixels@ == spec_pack_argb(rgba@).take(k as int),
    {
        assert(4 * k + 3 < rgba@.len()) by (nonlinear_arith)
            requires
                k < n,
                n == rgba@.len() / 4,
            len == rgba@.len(),
        ;
        pixels.push(argb(rgba[4 * k], rgba[4 * k + 1], rgba[4 * k + 2], rgba[4 * k + 3]));
        assert(pixels@ =~= spec_pack_argb(rgba@).take(k + 1));
    }
    assert(spec_pack_argb(rgba@).take(n as int) =~= spec_pack_argb(rgba@));
    pixels
}

/// The image that `image::load_from_memory` decodes from `data`, as width,
/// height and RGBA bytes; `None` where it cannot decode it.
pub uninterp spec fn decoded_image(data: Seq<u8>) -> Option<(u32, u32, Seq<u8>)>;

/// The RGBA bytes that `image::imageops::resize` with the nearest-neighbour
/// filter makes of a `width` x `height` RGBA image for `new_width` x `new_height`.
pub uninterp spec fn resized_nearest(pixels: Seq<u8>, width: u32, height: u32, new_width: u32, new_height: u32) -> Seq<u8>;

/// The view of a decoded image.
pub open spec fn decoded_view(d: Option<(u32, u32, Vec<u8>)>) -> Option<(u32, u32, Seq<u8>)> {
    match d {
        Some((w, h, px)) => Some((w, h, px@)),
        None => None,
    }
}

/// Decodes an encoded image (such as JPEG or PNG) into RGBA.
///
/// Trusted: calls `image::load_from_memory`, which guesses the format from the
/// bytes and decodes them, and turns the result into RGBA bytes with
/// `DynamicImage::to_rgba8`. The contract names the result, a function of the
/// bytes alone, and states that the RGBA buffer holds exactly four bytes per
/// pixel, which holds of every buffer that the decoders and `to_rgba8` build.
#[verifier::external_body]
fn decode_image(data: &[u8]) -> (r: Option<(u32, u32, Vec<u8>)>)
    ensures
        decoded_view(r) == decoded_image(data@),
        r matches Some((w, h, px)) ==> px@.len() == w * h * 4,
{
    match image::load_from_memory(data) {
        Ok(img) => {
            let rgba = img.to_rgba8();
            Some((rgba.width(), rgba.height(), rgba.into_raw()))
        },
        Err(_) => None,
    }
}

/// Resizes an RGBA image with the nearest-neighbour filter.
///
/// Trusted: wraps the bytes with `image::ImageBuffer::from_raw` (which accepts
/// a buffer of at least four bytes per pixel, as `requires` asks) and calls
/// `image::imageops::resize` with `FilterType::Nearest`. The contract names the
/// result, a function of the arguments alone, and states that it holds exactly
/// four bytes per pixel of the new size, as the buffer that `resize` allocates
/// does. `requires` also keeps the buffers that `resize` allocates within
/// `usize`, past which it panics.
#[verifier::external_body]
fn resize_nearest(rgba: Vec<u8>, width: u32, height: u32, new_width: u32, new_height: u32) -> (out: Vec<u8>)
    requires
        rgba@.len() >= width * height * 4,
        new_width * new_height * 4 <= usize::MAX,
        width * new_height * 4 <= usize::MAX,
    ensures
        out@ == resized_nearest(rgba@, width, height, new_width, new_height),
        out@.len() == new_width * new_height * 4,
{
    match image::ImageBuffer::<image::Rgba<u8>, Vec<u8>>::from_raw(width, height, rgba) {
        Some(img) => image::imageops::resize(&img, new_width, new_height, image::imageops::FilterType::Nearest).into_raw(),
        None => Vec::new(),
    }
}

/// Decodes a received encoded image into its width, its height and its RGBA
/// bytes, four per pixel; `None` where it cannot be decoded.
pub fn decode_received_image(data: &[u8]) -> (r: Option<(u32, u32, Vec<u8>)>)
    ensures
        decoded_view(r) == decoded_image(data@),
        r matches Some((w, h, px)) ==> px@.len() == w * h * 4,
{
    decode_image(data)
}

/// The window pixels of a received encoded image: its width, its height and
/// its pixels packed; `None` where the image cannot be decoded.
pub fn frame_pixels(data: &[u8]) -> (r: Option<(usize, usize, Vec<u32>)>)
    ensures
        match decoded_image(data@) {
            Some((w, h, px)) => r matches Some((rw, rh, pixels)) && rw == w && rh == h
                && pixels@ == spec_pack_argb(px) && pixels@.len() == w * h,
            None => r is None,
        },
{
    match decode_received_image(data) {
        Some((w, h, px)) => {
            let pixels = pack_argb(px.as_slice());
            Some((w as usize, h as usize, pixels))
        },
        None => None,
    }
}

proof fn lemma_rgb_len(pixels: nat)
    ensures
        (pixels * 4) / 4 * 3 == pixels * 3,
{
    assert((pixels * 4) / 4 == pixels) by (nonlinear_arith);
}

/// Whether a captured frame must be resized to the configured size.
pub open spec fn spec_needs_resize(width: u32, height: u32, target_width: u32, target_height: u32) -> bool {
    width != target_width || height != target_height
}

/// The encoder's RGB24 input for a captured `width` x `height` RGBA frame:
/// resized with the nearest-neighbour filter where its size differs from the
/// configured one, then stripped of alpha.
pub fn prepare_frame(rgba: Vec<u8>, width: u32, height: u32, target_width: u32, target_height: u32) -> (rgb: Vec<u8>)
    requires
        rgba@.len() >= width * height * 4,
        target_width * target_height * 4 <= usize::MAX,
        width * target_height * 4 <= usize::MAX,
    ensures
        rgb@ == spec_rgb_of(
            if spec_needs_resize(width, height, target_width, target_height) {
                resized_nearest(rgba@, width, height, target_width, target_height)
            } else {
                rgba@.take(width * height * 4)
            },
        ),
        rgb@.len() == target_width * target_height * 3,
{
    if width != target_width || height != target_height {
        let resized = resize_nearest(rgba, width, height, target_width, target_height);
        let rgb = rgba_to_rgb(resized.as_slice());
        proof {
            lemma_rgb_len((target_width * target_height) as nat);
        }
        rgb
    } else {
        let mut own = rgba;
        let n: usize = (width as usize) * (height as usize) * 4;
        own.truncate(n);
        let rgb = rgba_to_rgb(own.as_slice());
        proof {
            lemma_rgb_len((width * height) as nat);
        }
        rgb
    }
}


/// The JPEG file that `image::codecs::jpeg::JpegEncoder` (quality 75) makes of
/// a `width` x `height` RGB image; `None` where it refuses the size.
pub uninterp spec fn jpeg_encoded(rgb: Seq<u8>, width: u32, height: u32) -> Option<Seq<u8>>;

/// The view of an optional byte buffer.
pub open spec fn bytes_view(b: Option<Vec<u8>>) -> Option<Seq<u8>> {
    match b {
        Some(v) => Some(v@),
        None => None,
    }
}

/// Encodes an RGB image as JPEG.
///
/// Trusted: makes a `JpegEncoder` on a byte vector with `JpegEncoder::new`
/// (quality 75) and calls its `encode` with `ExtendedColorType::Rgb8`. The
/// contract names the bytes, a function of the arguments alone, and states
/// when they come: `encode` refuses a width or height of 0 or over 65535, and
/// writing to a vector does not fail. `requires` rules out the buffer lengths
/// on which `encode` panics.
#[verifier::external_body]
fn encode_jpeg(rgb: &[u8], width: u32, height: u32) -> (r: Option<Vec<u8>>)
    requires
        rgb@.len() == width * height * 3,
    ensures
        bytes_view(r) == jpeg_encoded(rgb@, width, height),
        r is Some <==> (1 <= width <= 65535 && 1 <= height <= 65535),
{
    let mut out: Vec<u8> = Vec::new();
    match image::codecs::jpeg::JpegEncoder::new(&mut out).encode(rgb, width, height, image::ExtendedColorType::Rgb8) {
        Ok(()) => Some(out),
        Err(_) => None,
    }
}

/// The message that carries an encoded frame: the JPEG bytes as the frame's
/// data; `None` where there are none.
pub fn video_message(jpeg: Option<Vec<u8>>) -> (m: Option<HostMessage>)
    ensures
        match jpeg {
            Some(d) => m matches Some(HostMessage::KlatkaObrazu { dane }) && dane == d,
            None => m is None,
        },
{
    match jpeg {
        Some(d) => Some(HostMessage::KlatkaObrazu { dane: d }),
        None => None,
    }
}

/// The frame of a captured `width` x `height` RGBA screen as sent to the client:
/// resized to the configured size where it differs, stripped of alpha, encoded
/// as JPEG; `None` where the configured size is no JPEG size (0, or over 65535).
pub fn frame_message(rgba: Vec<u8>, width: u32, height: u32, target_width: u32, target_height: u32) -> (m: Option<HostMessage>)
    requires
        rgba@.len() >= width * height * 4,
        target_width * target_height * 4 <= usize::MAX,
        width * target_height * 4 <= usize::MAX,
    ensures
        match jpeg_encoded(
            spec_rgb_of(
                if spec_needs_resize(width, height, target_width, target_height) {
                    resized_nearest(rgba@, width, height, target_width, target_height)
                } else {
                    rgba@.take(width * height * 4)
                },
            ),
            target_width,
            target_height,
        ) {
            Some(d) => m matches Some(HostMessage::KlatkaObrazu { dane }) && dane@ == d,
            None => m is None,
        },
        m is Some <==> (1 <= target_width <= 65535 && 1 <= target_height <= 65535),
{
    let rgb = prepare_frame(rgba, width, height, target_width, target_height);
    video_message(encode_jpeg(rgb.as_slice(), target_width, target_height))
}

} // verus!
