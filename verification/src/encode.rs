//! The `Encode`/`Decode` capability pair and the byte source they draw from.
//!
//! Every wire format in this crate is described twice: a spec-level
//! description (`encoding` for the bytes a value produces, `decoded` for
//! what a byte sequence yields) and an executable codec proved to match it.

use vstd::prelude::*;

verus! {

/// The failure kinds a decoder can report.
///
/// Decoding never panics and never returns a partial value: each failure
/// aborts the enclosing decode and propagates one of these kinds.
#[derive(Debug, Clone, Copy, PartialEq, Eq, Structural)]
pub enum Error {
    /// Bytes of the right length whose content is unrecognized
    /// (an unknown network magic, an unknown command string).
    InvalidData,
    /// A header named a command with no registered payload decoder.
    UnsupportedCommand,
    /// Fewer bytes were available than a field requires.
    Truncated,
}

/// A byte source: owns a buffer and yields its bytes in order.
///
/// Decoders consume from the front; `remaining()` is the spec-level view of
/// the bytes not yet consumed.  A failed read leaves the position unchanged.
pub struct ByteReader {
    data: Vec<u8>,
    pos: usize,
}

impl ByteReader {
    /// The whole underlying buffer.
    pub closed spec fn data(&self) -> Seq<u8> {
        self.data@
    }

    /// How many bytes have been consumed so far.
    pub closed spec fn pos(&self) -> int {
        self.pos as int
    }

    pub open spec fn wf(&self) -> bool {
        0 <= self.pos() <= self.data().len()
    }

    /// The bytes not yet consumed.
    pub open spec fn remaining(&self) -> Seq<u8> {
        self.data().subrange(self.pos(), self.data().len() as int)
    }

    pub fn new(data: Vec<u8>) -> (r: ByteReader)
        ensures
            r.wf(),
            r.data() == data@,
            r.pos() == 0,
    {
        ByteReader { data, pos: 0 }
    }

    pub fn position(&self) -> (n: usize)
        ensures
            n == self.pos(),
    {
        self.pos
    }

    pub fn remaining_len(&self) -> (n: usize)
        requires
            self.wf(),
        ensures
            n == self.remaining().len(),
    {
        self.data.len() - self.pos
    }

    /// Yield the next byte, or `Truncated` if the buffer is exhausted.
    pub fn read_byte(&mut self) -> (res: Result<u8, Error>)
        requires
            old(self).wf(),
        ensures
            final(self).wf(),
            final(self).data() == old(self).data(),
            old(self).remaining().len() >= 1 ==> (res == Result::<u8, Error>::Ok(
                old(self).remaining()[0],
            ) && final(self).pos() == old(self).pos() + 1),
            old(self).remaining().len() == 0 ==> (res == Result::<u8, Error>::Err(
                Error::Truncated,
            ) && final(self).pos() == old(self).pos()),
    {
        if self.pos < self.data.len() {
            let b = self.data[self.pos];
            self.pos = self.pos + 1;
            Ok(b)
        } else {
            Err(Error::Truncated)
        }
    }

    /// Yield the next `n` bytes, or `Truncated` if fewer remain.
    pub fn read_bytes(&mut self, n: usize) -> (res: Result<Vec<u8>, Error>)
        requires
            old(self).wf(),
        ensures
            final(self).wf(),
            final(self).data() == old(self).data(),
            old(self).remaining().len() >= n ==> (match res {
                Ok(v) => v@ == old(self).remaining().take(n as int) && final(self).pos() == old(
                    self,
                ).pos() + n,
                Err(_) => false,
            }),
            old(self).remaining().len() < n ==> (res == Result::<Vec<u8>, Error>::Err(
                Error::Truncated,
            ) && final(self).pos() == old(self).pos()),
    {
        let len = self.data.len();
        if n > len - self.pos {
            return Err(Error::Truncated);
        }
        let mut out: Vec<u8> = Vec::new();
        let mut i: usize = 0;
        while i < n
            invariant
                self.wf(),
                self.data().len() == len,
                self.pos + n <= len,
                i <= n,
                out@ == self.remaining().take(i as int),
            decreases n - i,
        {
            let b = self.data[self.pos + i];
            out.push(b);
            proof {
                assert(out@ =~= self.remaining().take(i + 1));
            }
            i = i + 1;
        }
        self.pos = self.pos + n;
        Ok(out)
    }
}

/// The capability to serialize a value into its wire form.
pub trait Encode {
    /// The exact byte sequence this value takes on the wire.
    spec fn encoding(&self) -> Seq<u8>;

    /// Append the wire form of `self` to `w` and return the count of bytes
    /// written.
    fn net_encode(&self, w: &mut Vec<u8>) -> (n: usize)
        ensures
            final(w)@ == old(w)@ + self.encoding(),
            n == self.encoding().len(),
    ;
}

/// The capability to reconstruct a value from its wire form.
///
/// The result is characterized through the type's mathematical view
/// (`Self::V`): `decoded` maps a byte sequence to the view of the value it
/// yields and the count of bytes consumed, or to the failure kind.
pub trait Decode: Sized + View {
    /// What decoding yields on the byte sequence `s`: the view of the value
    /// together with the count of bytes consumed, or the failure kind.  A
    /// decoder consumes exactly the bytes of the detected form and never
    /// over-reads.
    spec fn decoded(s: Seq<u8>) -> Result<(Self::V, int), Error>;

    /// Decode one value from the front of `r`.
    fn net_decode(r: &mut ByteReader) -> (res: Result<Self, Error>)
        requires
            old(r).wf(),
        ensures
            final(r).wf(),
            final(r).data() == old(r).data(),
            (match Self::decoded(old(r).remaining()) {
                Ok(p) => match res {
                    Ok(v) => v@ == p.0 && final(r).pos() == old(r).pos() + p.1,
                    Err(_) => false,
                },
                Err(e) => match res {
                    Ok(_) => false,
                    Err(e2) => e2 == e,
                },
            }),
    ;
}

/// After consuming `k` bytes of `s`, the bytes still to be read are `s.skip(k)`.
pub proof fn lemma_remaining_skip(data: Seq<u8>, pos1: int, pos2: int)
    requires
        0 <= pos1 <= pos2 <= data.len(),
    ensures
        data.subrange(pos2, data.len() as int) == data.subrange(pos1, data.len() as int).skip(
            pos2 - pos1,
        ),
{
    assert(data.subrange(pos2, data.len() as int) =~= data.subrange(
        pos1,
        data.len() as int,
    ).skip(pos2 - pos1));
}

} // verus!
