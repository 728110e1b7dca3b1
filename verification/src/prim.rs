//! Primitive codec: little-endian fixed-width unsigned integers and
//! fixed-size byte arrays.
//!
//! Every integer field of the protocol is little-endian; byte arrays go on
//! the wire unmodified.

use vstd::prelude::*;
use vstd::bytes::*;
use crate::encode::{Encode, Decode, Error, ByteReader};

verus! {

impl Encode for u8 {
    open spec fn encoding(&self) -> Seq<u8> {
        seq![*self]
    }

    fn net_encode(&self, w: &mut Vec<u8>) -> (n: usize) {
        let ghost w0 = w@;
        w.push(*self);
        proof {
            assert(w@ =~= w0 + self.encoding());
        }
        1
    }
}

impl Decode for u8 {
    open spec fn decoded(s: Seq<u8>) -> Result<(u8, int), Error> {
        if s.len() < 1 {
            Err(Error::Truncated)
        } else {
            Ok((s[0], 1))
        }
    }

    fn net_decode(r: &mut ByteReader) -> (res: Result<u8, Error>) {
        r.read_byte()
    }
}

impl Encode for u16 {
    open spec fn encoding(&self) -> Seq<u8> {
        spec_u16_to_le_bytes(*self)
    }

    fn net_encode(&self, w: &mut Vec<u8>) -> (n: usize) {
        let mut bytes = u16_to_le_bytes(*self);
        w.append(&mut bytes);
        proof {
            lemma_auto_spec_u16_to_from_le_bytes();
        }
        2
    }
}

impl Decode for u16 {
    open spec fn decoded(s: Seq<u8>) -> Result<(u16, int), Error> {
        if s.len() < 2 {
            Err(Error::Truncated)
        } else {
            Ok((spec_u16_from_le_bytes(s.take(2)), 2))
        }
    }

    fn net_decode(r: &mut ByteReader) -> (res: Result<u16, Error>) {
        match r.read_bytes(2) {
            Ok(v) => Ok(u16_from_le_bytes(v.as_slice())),
            Err(e) => Err(e),
        }
    }
}

impl Encode for u32 {
    open spec fn encoding(&self) -> Seq<u8> {
        spec_u32_to_le_bytes(*self)
    }

    fn net_encode(&self, w: &mut Vec<u8>) -> (n: usize) {
        let mut bytes = u32_to_le_bytes(*self);
        w.append(&mut bytes);
        proof {
            lemma_auto_spec_u32_to_from_le_bytes();
        }
        4
    }
}

impl Decode for u32 {
    open spec fn decoded(s: Seq<u8>) -> Result<(u32, int), Error> {
        if s.len() < 4 {
            Err(Error::Truncated)
        } else {
            Ok((spec_u32_from_le_bytes(s.take(4)), 4))
        }
    }

    fn net_decode(r: &mut ByteReader) -> (res: Result<u32, Error>) {
        match r.read_bytes(4) {
            Ok(v) => Ok(u32_from_le_bytes(v.as_slice())),
            Err(e) => Err(e),
        }
    }
}

impl Encode for u64 {
    open spec fn encoding(&self) -> Seq<u8> {
        spec_u64_to_le_bytes(*self)
    }

    fn net_encode(&self, w: &mut Vec<u8>) -> (n: usize) {
        let mut bytes = u64_to_le_bytes(*self);
        w.append(&mut bytes);
        proof {
            lemma_auto_spec_u64_to_from_le_bytes();
        }
        8
    }
}

impl Decode for u64 {
    open spec fn decoded(s: Seq<u8>) -> Result<(u64, int), Error> {
        if s.len() < 8 {
            Err(Error::Truncated)
        } else {
            Ok((spec_u64_from_le_bytes(s.take(8)), 8))
        }
    }

    fn net_decode(r: &mut ByteReader) -> (res: Result<u64, Error>) {
        match r.read_bytes(8) {
            Ok(v) => Ok(u64_from_le_bytes(v.as_slice())),
            Err(e) => Err(e),
        }
    }
}

impl Encode for [u8; 4] {
    open spec fn encoding(&self) -> Seq<u8> {
        self@
    }

    fn net_encode(&self, w: &mut Vec<u8>) -> (n: usize) {
        let ghost w0 = w@;
        proof {
            assert(w@ =~= w0 + self@.take(0));
        }
        let mut i: usize = 0;
        while i < 4
            invariant
                i <= 4,
                w@ == w0 + self@.take(i as int),
            decreases 4 - i,
        {
            w.push(self[i]);
            proof {
                assert(w@ =~= w0 + self@.take(i + 1));
            }
            i = i + 1;
        }
        proof {
            assert(self@.take(4) =~= self@);
        }
        4
    }
}

impl Decode for [u8; 4] {
    open spec fn decoded(s: Seq<u8>) -> Result<(Seq<u8>, int), Error> {
        if s.len() < 4 {
            Err(Error::Truncated)
        } else {
            Ok((s.take(4), 4))
        }
    }

    fn net_decode(r: &mut ByteReader) -> (res: Result<[u8; 4], Error>) {
        match r.read_bytes(4) {
            Ok(v) => {
                let arr: [u8; 4] = [v[0], v[1], v[2], v[3]];
                proof {
                    assert(arr@ =~= v@);
                }
                Ok(arr)
            },
            Err(e) => Err(e),
        }
    }
}

/// Encoding then decoding any fixed-width little-endian integer is the
/// identity, and consumes exactly the integer's width.
pub proof fn lemma_u8_round_trip(x: u8, rest: Seq<u8>)
    ensures
        <u8 as Decode>::decoded(x.encoding() + rest) == Ok::<(u8, int), Error>((x, 1)),
{
    let s = x.encoding() + rest;
    assert(s[0] == x);
}

/// Encode-then-decode identity for 16-bit integers.
pub proof fn lemma_u16_round_trip(x: u16, rest: Seq<u8>)
    ensures
        <u16 as Decode>::decoded(x.encoding() + rest) == Ok::<(u16, int), Error>((x, 2)),
{
    lemma_auto_spec_u16_to_from_le_bytes();
    let s = x.encoding() + rest;
    assert(s.take(2) =~= spec_u16_to_le_bytes(x));
}

/// Encode-then-decode identity for 32-bit integers.
pub proof fn lemma_u32_round_trip(x: u32, rest: Seq<u8>)
    ensures
        <u32 as Decode>::decoded(x.encoding() + rest) == Ok::<(u32, int), Error>((x, 4)),
{
    lemma_auto_spec_u32_to_from_le_bytes();
    let s = x.encoding() + rest;
    assert(s.take(4) =~= spec_u32_to_le_bytes(x));
}

/// Encode-then-decode identity for 64-bit integers.
pub proof fn lemma_u64_round_trip(x: u64, rest: Seq<u8>)
    ensures
        <u64 as Decode>::decoded(x.encoding() + rest) == Ok::<(u64, int), Error>((x, 8)),
{
    lemma_auto_spec_u64_to_from_le_bytes();
    let s = x.encoding() + rest;
    assert(s.take(8) =~= spec_u64_to_le_bytes(x));
}

/// Encode-then-decode identity for 4-byte arrays.
pub proof fn lemma_array4_round_trip(a: [u8; 4], rest: Seq<u8>)
    ensures
        <[u8; 4] as Decode>::decoded(a.encoding() + rest) == Ok::<(Seq<u8>, int), Error>((a@, 4)),
{
    let s = a.encoding() + rest;
    assert(s.take(4) =~= a@);
}

} // verus!
