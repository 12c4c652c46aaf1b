use vstd::prelude::*;
use crate::error::Error;

verus! {

/// Largest payload a frame can announce: the length field is a signed
/// 32-bit integer.
pub const MAX_FRAME_LEN: usize = 0x7fff_ffff;

/// The four big-endian bytes of `x`.
pub open spec fn be_bytes(x: u32) -> Seq<u8> {
    seq![(x >> 24u32) as u8, (x >> 16u32) as u8, (x >> 8u32) as u8, x as u8]
}

/// The unsigned value of four big-endian bytes.
pub open spec fn be_value(b: Seq<u8>) -> u32
    recommends
        b.len() == 4,
{
    ((b[0] as u32) << 24u32) | ((b[1] as u32) << 16u32) | ((b[2] as u32) << 8u32) | (b[3] as u32)
}

/// A length header announces a payload length when, read as a signed
/// integer, it is not negative.
pub open spec fn header_ok(b: Seq<u8>) -> bool {
    be_value(b) <= MAX_FRAME_LEN
}

/// The frame of a payload: its length as four big-endian bytes, then the
/// payload itself.
pub open spec fn framed(payload: Seq<u8>) -> Seq<u8>
    recommends
        payload.len() <= MAX_FRAME_LEN,
{
    be_bytes(payload.len() as u32) + payload
}

/// Four big-endian bytes read back give the value they were written from.
pub proof fn lemma_be_round_trip(x: u32)
    ensures
        be_value(be_bytes(x)) == x,
{
    let b = be_bytes(x);
    assert(b[0] == (x >> 24u32) as u8 && b[1] == (x >> 16u32) as u8 && b[2] == (x >> 8u32) as u8
        && b[3] == x as u8);
    assert(((((x >> 24u32) as u8) as u32) << 24u32) | ((((x >> 16u32) as u8) as u32) << 16u32) | ((((x
        >> 8u32) as u8) as u32) << 8u32) | ((x as u8) as u32) == x) by (bit_vector);
}

/// Prefixes `payload` with its length. Fails with a protocol error when the
/// payload is too long for the length field.
pub fn frame(payload: &Vec<u8>) -> (r: Result<Vec<u8>, Error>)
    ensures
        r is Ok <==> payload@.len() <= MAX_FRAME_LEN,
        r matches Ok(f) ==> f@ == framed(payload@),
        r matches Err(e) ==> e is ProtocolError,
{
    if payload.len() > MAX_FRAME_LEN {
        return Err(Error::ProtocolError("payload too long for a frame".to_owned()));
    }
    let x = payload.len() as u32;
    let mut out: Vec<u8> = Vec::new();
    out.push((x >> 24u32) as u8);
    out.push((x >> 16u32) as u8);
    out.push((x >> 8u32) as u8);
    out.push(x as u8);
    assert(out@ == be_bytes(x));
    let mut i: usize = 0;
    while i < payload.len()
        invariant
            i <= payload@.len(),
            out@ == be_bytes(x) + payload@.subrange(0, i as int),
        decreases payload.len() - i,
    {
        out.push(payload[i]);
        i = i + 1;
        assert(payload@.subrange(0, i as int) == payload@.subrange(0, i - 1) + seq![payload@[i - 1]]);
    }
    assert(payload@.subrange(0, i as int) == payload@);
    Ok(out)
}

/// Reads the payload length out of a four-byte header. A negative length is
/// a protocol error.
pub fn header_length(header: &[u8]) -> (r: Result<usize, Error>)
    requires
        header@.len() == 4,
    ensures
        r is Ok <==> header_ok(header@),
        r matches Ok(n) ==> n == be_value(header@),
        r matches Err(e) ==> e is ProtocolError,
{
    let v: u32 = ((header[0] as u32) << 24u32) | ((header[1] as u32) << 16u32) | ((header[2] as u32)
        << 8u32) | (header[3] as u32);
    if v as usize > MAX_FRAME_LEN {
        Err(Error::ProtocolError("negative length in frame header".to_owned()))
    } else {
        Ok(v as usize)
    }
}

} // verus!
