//! The byte framing of video packets: a 4-byte big-endian length, then the payload.
use vstd::prelude::*;

verus! {

/// The four bytes of `n`, most significant first.
pub open spec fn spec_be_bytes(n: u32) -> Seq<u8> {
    seq![(n / 0x100_0000) as u8, (n / 0x1_0000 % 0x100) as u8, (n / 0x100 % 0x100) as u8, (n % 0x100) as u8]
}

/// The number that four bytes denote, most significant first.
pub open spec fn spec_be_value(b: Seq<u8>) -> int
    recommends
        b.len() == 4,
{
    b[0] * 0x100_0000 + b[1] * 0x1_0000 + b[2] * 0x100 + b[3]
}

/// Encodes the length of a payload as the 4-byte big-endian header that precedes
/// it on the wire. The length is taken modulo 2^32, as the header has 32 bits.
pub fn encode_frame_header(payload_len: usize) -> (header: [u8; 4])
    ensures
        header@ == spec_be_bytes(payload_len as u32),
{
    let n: u32 = payload_len as u32;
    let b0: u8 = (n >> 24) as u8;
    let b1: u8 = ((n >> 16) & 0xff) as u8;
    let b2: u8 = ((n >> 8) & 0xff) as u8;
    let b3: u8 = (n & 0xff) as u8;
    assert(b0 == n / 0x100_0000 && b1 == n / 0x1_0000 % 0x100 && b2 == n / 0x100 % 0x100 && b3 == n
        % 0x100) by (bit_vector)
        requires
            b0 == (n >> 24) as u8,
            b1 == ((n >> 16) & 0xff) as u8,
            b2 == ((n >> 8) & 0xff) as u8,
            b3 == (n & 0xff) as u8,
    ;
    [b0, b1, b2, b3]
}


/// Reads the payload length from a 4-byte big-endian header.
pub fn decode_frame_header(header: [u8; 4]) -> (len: usize)
    ensures
        len == spec_be_value(header@),
{
    let b0 = header[0] as u32;
    let b1 = header[1] as u32;
    let b2 = header[2] as u32;
    let b3 = header[3] as u32;
    let v: u32 = (b0 << 24) | (b1 << 16) | (b2 << 8) | b3;
    assert(v == b0 * 0x100_0000 + b1 * 0x1_0000 + b2 * 0x100 + b3) by (bit_vector)
        requires
            v == (b0 << 24) | (b1 << 16) | (b2 << 8) | b3,
            b0 < 256,
            b1 < 256,
            b2 < 256,
            b3 < 256,
    ;
    v as usize
}

/// A frame on the wire: the header for the payload's length, then the payload.
pub open spec fn spec_encode_frame(payload: Seq<u8>) -> Seq<u8> {
    spec_be_bytes(payload.len() as u32) + payload
}

/// The bytes that carry one payload: its 4-byte big-endian length, then the payload itself.
pub fn encode_frame(payload: &[u8]) -> (frame: Vec<u8>)
    ensures
        frame@ == spec_encode_frame(payload@),
{
    let header = encode_frame_header(payload.len());
    let mut frame: Vec<u8> = Vec::new();
    frame.push(header[0]);
    frame.push(header[1]);
    frame.push(header[2]);
    frame.push(header[3]);
    let n = payload.len();
    assert(frame@ =~= header@);
    for i in 0..n
        invariant
            n == payload@.len(),
            frame@ == header@ + payload@.take(i as int),
    {
        frame.push(payload[i]);
        assert(payload@.take(i + 1) =~= payload@.take(i as int).push(payload@[i as int]));
        assert(frame@ =~= header@ + payload@.take(i + 1));
    }
    assert(payload@.take(n as int) =~= payload@);
    frame
}

/// Decoding a header gives back the number that was encoded.
pub proof fn lemma_header_roundtrip(n: u32)
    ensures
        spec_be_value(spec_be_bytes(n)) == n,
{
    let b = spec_be_bytes(n);
    assert(b[0] == n / 0x100_0000);
    assert(b[1] == n / 0x1_0000 % 0x100);
    assert(b[2] == n / 0x100 % 0x100);
    assert(b[3] == n % 0x100);
    assert(n == (n / 0x100_0000) * 0x100_0000 + (n / 0x1_0000 % 0x100) * 0x1_0000 + (n / 0x100 % 0x100) * 0x100 + n % 0x100) by (nonlinear_arith);
}

/// Encoding the number that a header denotes gives back the header.
pub proof fn lemma_header_unique(b: Seq<u8>)
    requires
        b.len() == 4,
    ensures
        spec_be_bytes(spec_be_value(b) as u32) == b,
{
    let (b0, b1, b2, b3) = (b[0] as int, b[1] as int, b[2] as int, b[3] as int);
    let v = spec_be_value(b);
    assert(0 <= v < 0x1_0000_0000);
    assert(v / 0x100_0000 == b0 && v / 0x1_0000 % 0x100 == b1 && v / 0x100 % 0x100 == b2 && v % 0x100 == b3) by (nonlinear_arith)
        requires
            v == b0 * 0x100_0000 + b1 * 0x1_0000 + b2 * 0x100 + b3,
            0 <= b0 < 256,
            0 <= b1 < 256,
            0 <= b2 < 256,
            0 <= b3 < 256,
    ;
    assert(spec_be_bytes(v as u32) =~= b);
}

/// What a reader takes from the front of a byte stream: the length from the
/// first four bytes, then that many bytes; `None` where the stream is too short.
pub open spec fn spec_read_frame(stream: Seq<u8>) -> Option<Seq<u8>> {
    if stream.len() < 4 {
        None
    } else {
        let n = spec_be_value(stream.take(4));
        if stream.len() < 4 + n {
            None
        } else {
            Some(stream.subrange(4, 4 + n))
        }
    }
}

/// A reader gets back what a writer framed: whatever follows a frame on the
/// stream, reading the stream gives the frame's payload, provided the payload
/// is shorter than 2^32 bytes (the header has 32 bits).
pub proof fn lemma_frame_roundtrip(payload: Seq<u8>, rest: Seq<u8>)
    requires
        payload.len() <= u32::MAX,
    ensures
        spec_read_frame(spec_encode_frame(payload) + rest) == Some(payload),
{
    let s = spec_encode_frame(payload) + rest;
    assert(s.take(4) =~= spec_be_bytes(payload.len() as u32));
    lemma_header_roundtrip(payload.len() as u32);
    assert(s.subrange(4, 4 + payload.len() as int) =~= payload);
}

} // verus!
