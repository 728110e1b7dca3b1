//! The CompactSize variable-length unsigned integer, and the
//! length-prefixed byte string built on it.
//!
//! A value is stored in the minimal form that can hold it: one byte for
//! values up to `0xFC`, or a marker byte (`0xFD`/`0xFE`/`0xFF`) followed by
//! the value as a little-endian 16-, 32- or 64-bit integer.

use vstd::prelude::*;
use vstd::bytes::*;
use crate::encode::{Encode, Decode, Error, ByteReader, lemma_remaining_skip};
use crate::prim::{lemma_u16_round_trip, lemma_u32_round_trip, lemma_u64_round_trip};

verus! {

/// An unsigned 64-bit count, encoded compactly on the wire.
#[derive(Debug, Clone, Copy, PartialEq, Eq, Structural)]
pub struct VariableInteger(pub u64);

impl View for VariableInteger {
    type V = VariableInteger;

    open spec fn view(&self) -> VariableInteger {
        *self
    }
}

impl From<u64> for VariableInteger {
    fn from(v: u64) -> (r: VariableInteger) {
        VariableInteger(v)
    }
}

impl vstd::std_specs::convert::FromSpecImpl<u64> for VariableInteger {
    open spec fn obeys_from_spec() -> bool {
        true
    }

    open spec fn from_spec(v: u64) -> VariableInteger {
        VariableInteger(v)
    }
}

/// The byte length of the minimal form that holds `v`.
pub open spec fn varint_len(v: u64) -> int {
    if v <= 0xFC {
        1
    } else if v <= 0xFFFF {
        3
    } else if v <= 0xFFFF_FFFF {
        5
    } else {
        9
    }
}

impl Encode for VariableInteger {
    open spec fn encoding(&self) -> Seq<u8> {
        if self.0 <= 0xFC {
            seq![self.0 as u8]
        } else if self.0 <= 0xFFFF {
            seq![0xFDu8] + spec_u16_to_le_bytes(self.0 as u16)
        } else if self.0 <= 0xFFFF_FFFF {
            seq![0xFEu8] + spec_u32_to_le_bytes(self.0 as u32)
        } else {
            seq![0xFFu8] + spec_u64_to_le_bytes(self.0)
        }
    }

    fn net_encode(&self, w: &mut Vec<u8>) -> (n: usize) {
        let ghost w0 = w@;
        if self.0 <= 0xFC {
            w.push(self.0 as u8);
            proof {
                assert(w@ =~= w0 + self.encoding());
            }
            1
        } else if self.0 <= 0xFFFF {
            w.push(0xFD);
            (self.0 as u16).net_encode(w);
            proof {
                lemma_auto_spec_u16_to_from_le_bytes();
                assert(w@ =~= w0 + self.encoding());
            }
            3
        } else if self.0 <= 0xFFFF_FFFF {
            w.push(0xFE);
            (self.0 as u32).net_encode(w);
            proof {
                lemma_auto_spec_u32_to_from_le_bytes();
                assert(w@ =~= w0 + self.encoding());
            }
            5
        } else {
            w.push(0xFF);
            self.0.net_encode(w);
            proof {
                lemma_auto_spec_u64_to_from_le_bytes();
                assert(w@ =~= w0 + self.encoding());
            }
            9
        }
    }
}

impl Decode for VariableInteger {
    open spec fn decoded(s: Seq<u8>) -> Result<(VariableInteger, int), Error> {
        if s.len() < 1 {
            Err(Error::Truncated)
        } else if s[0] < 0xFD {
            Ok((VariableInteger(s[0] as u64), 1))
        } else if s[0] == 0xFD {
            match <u16 as Decode>::decoded(s.skip(1)) {
                Ok(p) => Ok((VariableInteger(p.0 as u64), 1 + p.1)),
                Err(e) => Err(e),
            }
        } else if s[0] == 0xFE {
            match <u32 as Decode>::decoded(s.skip(1)) {
                Ok(p) => Ok((VariableInteger(p.0 as u64), 1 + p.1)),
                Err(e) => Err(e),
            }
        } else {
            match <u64 as Decode>::decoded(s.skip(1)) {
                Ok(p) => Ok((VariableInteger(p.0), 1 + p.1)),
                Err(e) => Err(e),
            }
        }
    }

    fn net_decode(r: &mut ByteReader) -> (res: Result<VariableInteger, Error>) {
        let ghost r0 = *r;
        let marker = match r.read_byte() {
            Ok(b) => b,
            Err(e) => {
                return Err(e);
            },
        };
        proof {
            lemma_remaining_skip(r0.data(), r0.pos(), r.pos());
        }
        if marker < 0xFD {
            Ok(VariableInteger(marker as u64))
        } else if marker == 0xFD {
            match u16::net_decode(r) {
                Ok(x) => Ok(VariableInteger(x as u64)),
                Err(e) => Err(e),
            }
        } else if marker == 0xFE {
            match u32::net_decode(r) {
                Ok(x) => Ok(VariableInteger(x as u64)),
                Err(e) => Err(e),
            }
        } else {
            match u64::net_decode(r) {
                Ok(x) => Ok(VariableInteger(x)),
                Err(e) => Err(e),
            }
        }
    }
}

/// Encoding a `VariableInteger` and decoding the result reproduces the
/// value, whatever bytes follow, and the encoded form is the minimal legal
/// one: its length is `varint_len`.
pub proof fn lemma_varint_round_trip(v: VariableInteger, rest: Seq<u8>)
    ensures
        <VariableInteger as Decode>::decoded(v.encoding() + rest) == Ok::<
            (VariableInteger, int),
            Error,
        >((v, varint_len(v.0))),
        v.encoding().len() == varint_len(v.0),
{
    let s = v.encoding() + rest;
    if v.0 <= 0xFC {
        assert(s[0] == v.0 as u8);
    } else if v.0 <= 0xFFFF {
        lemma_auto_spec_u16_to_from_le_bytes();
        assert(s[0] == 0xFD);
        assert(s.skip(1) =~= spec_u16_to_le_bytes(v.0 as u16) + rest);
        lemma_u16_round_trip(v.0 as u16, rest);
    } else if v.0 <= 0xFFFF_FFFF {
        lemma_auto_spec_u32_to_from_le_bytes();
        assert(s[0] == 0xFE);
        assert(s.skip(1) =~= spec_u32_to_le_bytes(v.0 as u32) + rest);
        lemma_u32_round_trip(v.0 as u32, rest);
    } else {
        lemma_auto_spec_u64_to_from_le_bytes();
        assert(s[0] == 0xFF);
        assert(s.skip(1) =~= spec_u64_to_le_bytes(v.0) + rest);
        lemma_u64_round_trip(v.0, rest);
    }
}

/// The wire form of a byte string: a `VariableInteger` byte count followed
/// by the raw bytes, with no terminator.
pub open spec fn varstring_encoding(s: Seq<u8>) -> Seq<u8> {
    VariableInteger(s.len() as u64).encoding() + s
}

impl Encode for Vec<u8> {
    open spec fn encoding(&self) -> Seq<u8> {
        varstring_encoding(self@)
    }

    fn net_encode(&self, w: &mut Vec<u8>) -> (n: usize) {
        let ghost w0 = w@;
        let before = w.len();
        let vi = VariableInteger(self.len() as u64);
        vi.net_encode(w);
        proof {
            assert(w@ + self@.take(0) =~= w@);
        }
        let ghost w1 = w@;
        let mut i: usize = 0;
        while i < self.len()
            invariant
                i <= self@.len(),
                w@ == w1 + self@.take(i as int),
            decreases self@.len() - i,
        {
            let b = self[i];
            w.push(b);
            proof {
                assert(w@ =~= w1 + self@.take(i + 1));
            }
            i = i + 1;
        }
        proof {
            assert(self@.take(self@.len() as int) =~= self@);
            assert(w@ =~= w0 + self.encoding());
        }
        w.len() - before
    }
}

impl Decode for Vec<u8> {
    open spec fn decoded(s: Seq<u8>) -> Result<(Seq<u8>, int), Error> {
        match <VariableInteger as Decode>::decoded(s) {
            Err(e) => Err(e),
            Ok(p) => {
                let count = p.0.0 as int;
                if s.skip(p.1).len() < count {
                    Err(Error::Truncated)
                } else {
                    Ok((s.skip(p.1).take(count), p.1 + count))
                }
            },
        }
    }

    fn net_decode(r: &mut ByteReader) -> (res: Result<Vec<u8>, Error>) {
        let ghost r0 = *r;
        let vi = match VariableInteger::net_decode(r) {
            Ok(v) => v,
            Err(e) => {
                return Err(e);
            },
        };
        proof {
            lemma_remaining_skip(r0.data(), r0.pos(), r.pos());
        }
        let rem = r.remaining_len();
        if vi.0 > rem as u64 {
            return Err(Error::Truncated);
        }
        let count = vi.0 as usize;
        match r.read_bytes(count) {
            Ok(v) => Ok(v),
            Err(e) => Err(e),
        }
    }
}

/// Encoding a byte string as a length-prefixed var-string and decoding the
/// result reproduces the bytes, whatever follows.
pub proof fn lemma_varstring_round_trip(s: Seq<u8>, rest: Seq<u8>)
    requires
        s.len() <= u64::MAX,
    ensures
        <Vec<u8> as Decode>::decoded(varstring_encoding(s) + rest) == Ok::<(Seq<u8>, int), Error>(
            (s, varstring_encoding(s).len() as int),
        ),
{
    let vi = VariableInteger(s.len() as u64);
    let whole = varstring_encoding(s) + rest;
    assert(whole =~= vi.encoding() + (s + rest));
    lemma_varint_round_trip(vi, s + rest);
    assert(whole.skip(varint_len(vi.0)) =~= s + rest);
    assert((s + rest).take(s.len() as int) =~= s);
}

} // verus!
