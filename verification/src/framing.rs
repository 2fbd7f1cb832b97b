//! Length-prefixed framing of IPC messages: a 4-byte big-endian length,
//! then the message bytes.

use vstd::prelude::*;

verus! {

/// The four big-endian bytes of `n`, as `u32::to_be_bytes` gives them.
pub open spec fn be_bytes(n: u32) -> Seq<u8> {
    seq![(n >> 24u32) as u8, ((n >> 16u32) & 0xffu32) as u8, ((n >> 8u32) & 0xffu32) as u8, (n & 0xffu32) as u8]
}

/// The number that four big-endian bytes encode, as `u32::from_be_bytes` reads it.
pub open spec fn be_value(b0: u8, b1: u8, b2: u8, b3: u8) -> u32 {
    ((b0 as u32) << 24u32) | ((b1 as u32) << 16u32) | ((b2 as u32) << 8u32) | (b3 as u32)
}

/// The frame header for a message of `len` bytes: the low 32 bits of the
/// length, big-endian.
pub fn frame_header(len: usize) -> (h: [u8; 4])
    ensures
        h@ == be_bytes((len as int % 0x1_0000_0000int) as u32),
{
    let x = len as u64;
    assert((x & 0xffff_ffffu64) == x % 0x1_0000_0000u64 && (x & 0xffff_ffffu64) < 0x1_0000_0000u64)
        by (bit_vector);
    let n = (x & 0xffff_ffffu64) as u32;
    let b0 = (n >> 24u32) as u8;
    let b1 = ((n >> 16u32) & 0xffu32) as u8;
    let b2 = ((n >> 8u32) & 0xffu32) as u8;
    let b3 = (n & 0xffu32) as u8;
    let h = [b0, b1, b2, b3];
    assert(h@ =~= be_bytes(n));
    h
}

/// The message length a frame header announces.
pub fn frame_len(header: [u8; 4]) -> (len: usize)
    ensures
        len == be_value(header@[0], header@[1], header@[2], header@[3]),
{
    let v: u32 = ((header[0] as u32) << 24u32) | ((header[1] as u32) << 16u32) | ((header[2] as u32)
        << 8u32) | (header[3] as u32);
    v as usize
}

/// The bytes that go on the wire for `data`: its header, then the data.
pub fn encode_frame(data: &[u8]) -> (out: Vec<u8>)
    ensures
        out@ == be_bytes((data@.len() as int % 0x1_0000_0000int) as u32) + data@,
{
    let h = frame_header(data.len());
    let mut out: Vec<u8> = Vec::new();
    out.push(h[0]);
    out.push(h[1]);
    out.push(h[2]);
    out.push(h[3]);
    let mut i: usize = 0;
    while i < data.len()
        invariant
            i <= data@.len(),
            h@ == be_bytes((data@.len() as int % 0x1_0000_0000int) as u32),
            out@ == h@ + data@.subrange(0, i as int),
        decreases data.len() - i,
    {
        out.push(data[i]);
        i = i + 1;
        assert(out@ == h@ + data@.subrange(0, i as int));
    }
    assert(data@.subrange(0, data@.len() as int) == data@);
    out
}

/// The message in the first complete frame at the start of `buf`: `None`
/// while fewer than four header bytes, or fewer message bytes than the header
/// announces, have arrived.
pub fn decode_frame(buf: &[u8]) -> (r: Option<Vec<u8>>)
    ensures
        match r {
            Some(m) => buf@.len() >= 4 && {
                let n = be_value(buf@[0], buf@[1], buf@[2], buf@[3]) as int;
                buf@.len() >= 4 + n && m@ == buf@.subrange(4, 4 + n)
            },
            None => buf@.len() < 4 || buf@.len() < 4 + be_value(buf@[0], buf@[1], buf@[2], buf@[3]),
        },
{
    if buf.len() < 4 {
        return None;
    }
    let n = frame_len([buf[0], buf[1], buf[2], buf[3]]);
    if buf.len() - 4 < n {
        return None;
    }
    let mut m: Vec<u8> = Vec::new();
    let mut i: usize = 0;
    while i < n
        invariant
            4 + n <= buf.len(),
            i <= n,
            m@ == buf@.subrange(4, 4 + i),
        decreases n - i,
    {
        m.push(buf[4 + i]);
        i = i + 1;
        assert(m@ == buf@.subrange(4, 4 + i));
    }
    Some(m)
}

/// A header announces the length it was made from.
pub proof fn law_header_round_trip(n: u32)
    ensures
        be_value(be_bytes(n)[0], be_bytes(n)[1], be_bytes(n)[2], be_bytes(n)[3]) == n,
{
    let b0 = (n >> 24u32) as u8;
    let b1 = ((n >> 16u32) & 0xffu32) as u8;
    let b2 = ((n >> 8u32) & 0xffu32) as u8;
    let b3 = (n & 0xffu32) as u8;
    assert(((b0 as u32) << 24u32) | ((b1 as u32) << 16u32) | ((b2 as u32) << 8u32) | (b3 as u32) == n)
        by (bit_vector)
        requires
            b0 == (n >> 24u32) as u8,
            b1 == ((n >> 16u32) & 0xffu32) as u8,
            b2 == ((n >> 8u32) & 0xffu32) as u8,
            b3 == (n & 0xffu32) as u8,
    ;
}

/// Reading a frame gives back the message that was framed, for any message
/// shorter than 4 GiB.
pub proof fn law_decode_encode(data: Seq<u8>)
    requires
        data.len() < 0x1_0000_0000,
    ensures
        ({
            let buf = be_bytes(data.len() as u32) + data;
            &&& buf.len() >= 4
            &&& be_value(buf[0], buf[1], buf[2], buf[3]) == data.len()
            &&& buf.subrange(4, 4 + data.len() as int) == data
        }),
{
    let buf = be_bytes(data.len() as u32) + data;
    law_header_round_trip(data.len() as u32);
    assert(buf.subrange(4, 4 + data.len() as int) =~= data);
}

} // verus!
