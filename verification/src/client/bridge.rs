//! The channel over a stream: a stream has no message boundaries, so every
//! buffer goes out behind four bytes that hold its length, big-endian.

use crate::bytes::{
    append_bytes, be_bytes, be_value, copy_range, lemma_be_bytes_len, lemma_be_value_of_bytes,
    lemma_pow256_values, push_be, read_be,
};
use vstd::prelude::*;

verus! {

/// The address of the remote end of a stream channel. A copy of the
/// channel connects to the same address anew.
#[derive(Clone, Debug, PartialEq, Eq)]
pub struct BridgeChannel {
    pub ip: String,
    pub port: u16,
}

/// What goes over the stream for the buffer `buf`: the length of `buf` in
/// four bytes, then `buf`. The four bytes hold the length modulo 2^32.
pub open spec fn framed(buf: Seq<u8>) -> Seq<u8> {
    be_bytes(buf.len() % 0x1_0000_0000, 4) + buf
}

/// The buffer at the front of `wire`, if `wire` holds all of it, and the
/// number of bytes that it takes up with its length.
pub open spec fn unframed(wire: Seq<u8>) -> Option<(Seq<u8>, nat)> {
    if wire.len() < 4 {
        None
    } else {
        let n = be_value(wire.subrange(0, 4));
        if wire.len() - 4 < n {
            None
        } else {
            Some((wire.subrange(4, 4 + n as int), 4 + n))
        }
    }
}

/// A buffer of less than 2^32 bytes takes up four bytes more than its
/// length on the stream, and is received as it was sent, whatever follows
/// it on the stream.
pub proof fn lemma_frame_round_trip(buf: Seq<u8>, rest: Seq<u8>)
    requires
        buf.len() < 0x1_0000_0000,
    ensures
        framed(buf).len() == buf.len() + 4,
        unframed(framed(buf) + rest) == Some((buf, buf.len() + 4)),
{
    let wire = framed(buf) + rest;
    lemma_be_bytes_len(buf.len(), 4);
    lemma_pow256_values();
    lemma_be_value_of_bytes(buf.len(), 4);
    assert(wire.subrange(0, 4) =~= be_bytes(buf.len(), 4));
    assert(wire.subrange(4, 4 + buf.len() as int) =~= buf);
}

impl BridgeChannel {
    /// The channel to the port `port` of the host `ip`.
    pub fn new(ip: String, port: u16) -> (c: Self)
        ensures
            c.ip@ == ip@,
            c.port == port,
    {
        BridgeChannel { ip, port }
    }

    /// The bytes that sending `buf` writes to the stream.
    pub fn frame(buf: &Vec<u8>) -> (wire: Vec<u8>)
        ensures
            wire@ == framed(buf@),
            wire@.len() == buf@.len() + 4,
    {
        let n: usize = buf.len();
        let len: u32 = ((n as u64) % 0x1_0000_0000u64) as u32;
        let mut wire: Vec<u8> = Vec::new();
        push_be(&mut wire, len as u64, 4);
        append_bytes(&mut wire, buf);
        proof {
            lemma_be_bytes_len(len as nat, 4);
            assert(wire@ =~= framed(buf@));
        }
        wire
    }

    /// The length of the buffer that follows the four bytes `head`.
    pub fn payload_len(head: &[u8; 4]) -> (n: u32)
        ensures
            n as nat == be_value(head@),
    {
        let mut bytes: Vec<u8> = Vec::new();
        bytes.push(head[0]);
        bytes.push(head[1]);
        bytes.push(head[2]);
        bytes.push(head[3]);
        assert(bytes@ =~= head@);
        let v: u64 = read_be(&bytes, 0, 4);
        proof {
            assert(bytes@.subrange(0, 4) =~= bytes@);
            crate::bytes::lemma_be_value_bound(bytes@);
            lemma_pow256_values();
        }
        v as u32
    }

    /// Receives from the bytes `wire` that came over the stream: the first
    /// buffer, and the number of bytes of `wire` that it took up, if `wire`
    /// holds the whole of it.
    pub fn unframe(wire: &Vec<u8>) -> (r: Option<(Vec<u8>, usize)>)
        ensures
            match unframed(wire@) {
                Some((buf, used)) => r matches Some((b, n)) && b@ == buf && n == used,
                None => r is None,
            },
    {
        if wire.len() < 4 {
            return None;
        }
        let n: u64 = read_be(wire, 0, 4);
        proof {
            crate::bytes::lemma_be_value_bound(wire@.subrange(0, 4));
            lemma_pow256_values();
        }
        let left: u64 = (wire.len() - 4) as u64;
        if left < n {
            return None;
        }
        let end: usize = 4 + n as usize;
        Some((copy_range(wire, 4, end), end))
    }
}

} // verus!
