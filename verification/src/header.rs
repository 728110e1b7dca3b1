//! Protocol identifiers and the fixed 24-byte message header.
//!
//! `Magic` names the network a message belongs to and serializes its 4-byte
//! constant verbatim, with the same byte order on encode and decode.
//! `Command` names a message's payload type and serializes as exactly 12
//! bytes of ASCII, left-justified and zero-padded.  `MessageHeader` is the
//! envelope `magic(4) ‖ command(12) ‖ length(4) ‖ checksum(4)`.

use vstd::prelude::*;
use crate::encode::{Encode, Decode, Error, ByteReader, lemma_remaining_skip};
use crate::prim::{lemma_u32_round_trip, lemma_array4_round_trip};

verus! {

/// The network a message belongs to.
///
/// `Unknown` stands for a 4-byte pattern that names no known network; it is
/// never produced by a successful decode, and it has no constant of its
/// own, so it encodes as four zero bytes, which no decoder accepts.
#[derive(Debug, Clone, Copy, PartialEq, Eq, Structural)]
pub enum Magic {
    Main,
    Test,
    Unknown,
}

impl View for Magic {
    type V = Magic;

    open spec fn view(&self) -> Magic {
        *self
    }
}

impl Magic {
    /// The 4-byte constant of this network.
    pub open spec fn spec_bytes(&self) -> Seq<u8> {
        match self {
            Magic::Main => seq![0xF9u8, 0xBEu8, 0xB4u8, 0xD9u8],
            Magic::Test => seq![0xFAu8, 0xBFu8, 0xB5u8, 0xDAu8],
            Magic::Unknown => seq![0x00u8, 0x00u8, 0x00u8, 0x00u8],
        }
    }

    pub fn bytes(&self) -> (b: [u8; 4])
        ensures
            b@ == self.spec_bytes(),
    {
        match self {
            Magic::Main => {
                let b: [u8; 4] = [0xF9, 0xBE, 0xB4, 0xD9];
                proof {
                    assert(b@ =~= self.spec_bytes());
                }
                b
            },
            Magic::Test => {
                let b: [u8; 4] = [0xFA, 0xBF, 0xB5, 0xDA];
                proof {
                    assert(b@ =~= self.spec_bytes());
                }
                b
            },
            Magic::Unknown => {
                let b: [u8; 4] = [0x00, 0x00, 0x00, 0x00];
                proof {
                    assert(b@ =~= self.spec_bytes());
                }
                b
            },
        }
    }

    /// Which network a 4-byte pattern names; `Unknown` if none.
    pub open spec fn spec_from_bytes(b: Seq<u8>) -> Magic {
        if b == Magic::Main.spec_bytes() {
            Magic::Main
        } else if b == Magic::Test.spec_bytes() {
            Magic::Test
        } else {
            Magic::Unknown
        }
    }

    pub fn from_bytes(b: &[u8; 4]) -> (m: Magic)
        ensures
            m == Magic::spec_from_bytes(b@),
    {
        if b[0] == 0xF9 && b[1] == 0xBE && b[2] == 0xB4 && b[3] == 0xD9 {
            proof {
                assert(b@ =~= Magic::Main.spec_bytes());
            }
            Magic::Main
        } else if b[0] == 0xFA && b[1] == 0xBF && b[2] == 0xB5 && b[3] == 0xDA {
            proof {
                assert(b@ =~= Magic::Test.spec_bytes());
            }
            Magic::Test
        } else {
            proof {
                assert(b@ != Magic::Main.spec_bytes() && b@ != Magic::Test.spec_bytes()) by {
                    if b@ == Magic::Main.spec_bytes() {
                        assert(b@[0] == 0xF9 && b@[1] == 0xBE && b@[2] == 0xB4 && b@[3] == 0xD9);
                    }
                    if b@ == Magic::Test.spec_bytes() {
                        assert(b@[0] == 0xFA && b@[1] == 0xBF && b@[2] == 0xB5 && b@[3] == 0xDA);
                    }
                }
            }
            Magic::Unknown
        }
    }
}

impl Encode for Magic {
    open spec fn encoding(&self) -> Seq<u8> {
        self.spec_bytes()
    }

    fn net_encode(&self, w: &mut Vec<u8>) -> (n: usize) {
        let b = self.bytes();
        b.net_encode(w)
    }
}

impl Decode for Magic {
    open spec fn decoded(s: Seq<u8>) -> Result<(Magic, int), Error> {
        if s.len() < 4 {
            Err(Error::Truncated)
        } else {
            let m = Magic::spec_from_bytes(s.take(4));
            if m == Magic::Unknown {
                Err(Error::InvalidData)
            } else {
                Ok((m, 4))
            }
        }
    }

    fn net_decode(r: &mut ByteReader) -> (res: Result<Magic, Error>) {
        let v = match r.read_bytes(4) {
            Ok(v) => v,
            Err(e) => {
                return Err(e);
            },
        };
        let arr: [u8; 4] = [v[0], v[1], v[2], v[3]];
        proof {
            assert(arr@ =~= v@);
        }
        match Magic::from_bytes(&arr) {
            Magic::Unknown => Err(Error::InvalidData),
            m => Ok(m),
        }
    }
}

/// A decoded `Magic` is exactly the network whose constant was read; the
/// two known constants round-trip, whatever bytes follow.
pub proof fn lemma_magic_round_trip(m: Magic, rest: Seq<u8>)
    requires
        m != Magic::Unknown,
    ensures
        <Magic as Decode>::decoded(m.encoding() + rest) == Ok::<(Magic, int), Error>((m, 4)),
{
    let s = m.encoding() + rest;
    assert(s.take(4) =~= m.spec_bytes());
    if m == Magic::Test {
        assert(s.take(4) != Magic::Main.spec_bytes()) by {
            if s.take(4) == Magic::Main.spec_bytes() {
                assert(s.take(4)[0] == 0xF9 && m.spec_bytes()[0] == 0xFA);
            }
        }
    }
}

/// A message-type opcode: the closed set of command names this client
/// recognizes on the wire.
///
/// `Ping` is recognized as a command name but has no payload decoder
/// registered in the message dispatch.
#[derive(Debug, Clone, Copy, PartialEq, Eq, Structural)]
pub enum Command {
    Version,
    Verack,
    Ping,
}

impl View for Command {
    type V = Command;

    open spec fn view(&self) -> Command {
        *self
    }
}

/// The ASCII prefix of `s` up to (not including) its first zero byte.
pub open spec fn prefix_before_zero(s: Seq<u8>) -> Seq<u8>
    decreases s.len(),
{
    if s.len() == 0 || s[0] == 0 {
        Seq::empty()
    } else {
        seq![s[0]] + prefix_before_zero(s.skip(1))
    }
}

/// If the first `k` bytes of `s` are nonzero and a zero (or the end)
/// follows, the prefix before the first zero is exactly those `k` bytes.
pub proof fn lemma_prefix_before_zero(s: Seq<u8>, k: int)
    requires
        0 <= k <= s.len(),
        forall|j: int| 0 <= j < k ==> s[j] != 0,
        k == s.len() || s[k] == 0,
    ensures
        prefix_before_zero(s) == s.take(k),
    decreases s.len(),
{
    if k == 0 {
        assert(s.take(0) =~= Seq::<u8>::empty());
    } else {
        assert(s[0] != 0);
        lemma_prefix_before_zero(s.skip(1), k - 1);
        assert(seq![s[0]] + s.skip(1).take(k - 1) =~= s.take(k));
    }
}

impl Command {
    /// The canonical lowercase ASCII name of this command.
    pub open spec fn name_bytes(&self) -> Seq<u8> {
        match self {
            // "version"
            Command::Version => seq![0x76u8, 0x65u8, 0x72u8, 0x73u8, 0x69u8, 0x6Fu8, 0x6Eu8],
            // "verack"
            Command::Verack => seq![0x76u8, 0x65u8, 0x72u8, 0x61u8, 0x63u8, 0x6Bu8],
            // "ping"
            Command::Ping => seq![0x70u8, 0x69u8, 0x6Eu8, 0x67u8],
        }
    }

    fn push_name(&self, w: &mut Vec<u8>)
        ensures
            final(w)@ == old(w)@ + self.name_bytes(),
    {
        let ghost w0 = w@;
        match self {
            Command::Version => {
                w.push(0x76);
                w.push(0x65);
                w.push(0x72);
                w.push(0x73);
                w.push(0x69);
                w.push(0x6F);
                w.push(0x6E);
            },
            Command::Verack => {
                w.push(0x76);
                w.push(0x65);
                w.push(0x72);
                w.push(0x61);
                w.push(0x63);
                w.push(0x6B);
            },
            Command::Ping => {
                w.push(0x70);
                w.push(0x69);
                w.push(0x6E);
                w.push(0x67);
            },
        }
        proof {
            assert(w@ =~= w0 + self.name_bytes());
        }
    }

    fn name_len(&self) -> (n: usize)
        ensures
            n == self.name_bytes().len(),
    {
        match self {
            Command::Version => 7,
            Command::Verack => 6,
            Command::Ping => 4,
        }
    }
}

impl Encode for Command {
    open spec fn encoding(&self) -> Seq<u8> {
        self.name_bytes() + Seq::new((12 - self.name_bytes().len()) as nat, |i: int| 0u8)
    }

    fn net_encode(&self, w: &mut Vec<u8>) -> (n: usize) {
        let ghost w0 = w@;
        self.push_name(w);
        let len = self.name_len();
        let mut i: usize = len;
        proof {
            assert(w@ =~= w0 + self.name_bytes() + Seq::new(0nat, |j: int| 0u8));
        }
        while i < 12
            invariant
                len == self.name_bytes().len(),
                len <= i <= 12,
                w@ == w0 + self.name_bytes() + Seq::new((i - len) as nat, |j: int| 0u8),
            decreases 12 - i,
        {
            w.push(0x00);
            proof {
                assert(w@ =~= w0 + self.name_bytes() + Seq::new((i + 1 - len) as nat, |j: int| 0u8));
            }
            i = i + 1;
        }
        12
    }
}

impl Decode for Command {
    open spec fn decoded(s: Seq<u8>) -> Result<(Command, int), Error> {
        if s.len() < 12 {
            Err(Error::Truncated)
        } else {
            let name = prefix_before_zero(s.take(12));
            if name == Command::Version.name_bytes() {
                Ok((Command::Version, 12))
            } else if name == Command::Verack.name_bytes() {
                Ok((Command::Verack, 12))
            } else if name == Command::Ping.name_bytes() {
                Ok((Command::Ping, 12))
            } else {
                Err(Error::InvalidData)
            }
        }
    }

    fn net_decode(r: &mut ByteReader) -> (res: Result<Command, Error>) {
        let v = match r.read_bytes(12) {
            Ok(v) => v,
            Err(e) => {
                return Err(e);
            },
        };
        let mut k: usize = 0;
        while k < 12 && *vstd::slice::slice_index_get(v.as_slice(), k) != 0
            invariant
                v@.len() == 12,
                k <= 12,
                forall|j: int| 0 <= j < k ==> v@[j] != 0,
            decreases 12 - k,
        {
            k = k + 1;
        }
        proof {
            lemma_prefix_before_zero(v@, k as int);
            assert(v@.take(12) =~= v@);
        }
        let ghost name = prefix_before_zero(v@);
        if k == 7 && v[0] == 0x76 && v[1] == 0x65 && v[2] == 0x72 && v[3] == 0x73 && v[4] == 0x69
            && v[5] == 0x6F && v[6] == 0x6E {
            proof {
                assert(name =~= Command::Version.name_bytes());
            }
            Ok(Command::Version)
        } else if k == 6 && v[0] == 0x76 && v[1] == 0x65 && v[2] == 0x72 && v[3] == 0x61 && v[4]
            == 0x63 && v[5] == 0x6B {
            proof {
                assert(name =~= Command::Verack.name_bytes());
            }
            Ok(Command::Verack)
        } else if k == 4 && v[0] == 0x70 && v[1] == 0x69 && v[2] == 0x6E && v[3] == 0x67 {
            proof {
                assert(name =~= Command::Ping.name_bytes());
            }
            Ok(Command::Ping)
        } else {
            proof {
                assert(name != Command::Version.name_bytes()) by {
                    if name == Command::Version.name_bytes() {
                        assert(name.len() == 7 && name[0] == 0x76 && name[1] == 0x65 && name[2]
                            == 0x72 && name[3] == 0x73 && name[4] == 0x69 && name[5] == 0x6F
                            && name[6] == 0x6E);
                    }
                }
                assert(name != Command::Verack.name_bytes()) by {
                    if name == Command::Verack.name_bytes() {
                        assert(name.len() == 6 && name[0] == 0x76 && name[1] == 0x65 && name[2]
                            == 0x72 && name[3] == 0x61 && name[4] == 0x63 && name[5] == 0x6B);
                    }
                }
                assert(name != Command::Ping.name_bytes()) by {
                    if name == Command::Ping.name_bytes() {
                        assert(name.len() == 4 && name[0] == 0x70 && name[1] == 0x69 && name[2]
                            == 0x6E && name[3] == 0x67);
                    }
                }
            }
            Err(Error::InvalidData)
        }
    }
}

/// Encoding a `Command` writes its name zero-padded to 12 bytes, and
/// decoding those bytes reads the name back, whatever bytes follow.
pub proof fn lemma_command_round_trip(c: Command, rest: Seq<u8>)
    ensures
        <Command as Decode>::decoded(c.encoding() + rest) == Ok::<(Command, int), Error>((c, 12)),
        c.encoding().len() == 12,
{
    let s = c.encoding() + rest;
    let t = s.take(12);
    assert(t =~= c.encoding());
    let k = c.name_bytes().len() as int;
    assert(forall|j: int| 0 <= j < k ==> t[j] != 0);
    assert(t[k] == 0);
    lemma_prefix_before_zero(t, k);
    assert(t.take(k) =~= c.name_bytes());
    if c == Command::Verack {
        assert(prefix_before_zero(t) != Command::Version.name_bytes()) by {
            if prefix_before_zero(t) == Command::Version.name_bytes() {
                assert(prefix_before_zero(t).len() == 7);
            }
        }
    }
    if c == Command::Ping {
        assert(prefix_before_zero(t) != Command::Version.name_bytes()) by {
            if prefix_before_zero(t) == Command::Version.name_bytes() {
                assert(prefix_before_zero(t).len() == 7);
            }
        }
        assert(prefix_before_zero(t) != Command::Verack.name_bytes()) by {
            if prefix_before_zero(t) == Command::Verack.name_bytes() {
                assert(prefix_before_zero(t).len() == 6);
            }
        }
    }
}

/// A 12-byte command field whose name (the ASCII prefix before the first
/// zero byte) is none of the recognized commands decodes to `InvalidData`:
/// never a panic, never a default variant.
pub proof fn lemma_unknown_command_rejected(s: Seq<u8>)
    requires
        s.len() >= 12,
        prefix_before_zero(s.take(12)) != Command::Version.name_bytes(),
        prefix_before_zero(s.take(12)) != Command::Verack.name_bytes(),
        prefix_before_zero(s.take(12)) != Command::Ping.name_bytes(),
    ensures
        <Command as Decode>::decoded(s) == Err::<(Command, int), Error>(Error::InvalidData),
{
}

/// The fixed-layout envelope of one wire message:
/// `magic(4) ‖ command(12) ‖ length(4, payload byte count) ‖ checksum(4)`.
///
/// The header does not validate `length` against an actual payload; the
/// checksum is opaque here, produced and checked by an external hashing
/// collaborator.
#[derive(Debug, Clone, Copy, PartialEq, Eq)]
pub struct MessageHeader {
    pub magic: Magic,
    pub command: Command,
    pub length: u32,
    pub checksum: [u8; 4],
}

impl View for MessageHeader {
    type V = MessageHeader;

    open spec fn view(&self) -> MessageHeader {
        *self
    }
}

impl MessageHeader {
    pub fn new(magic: Magic, command: Command, length: u32, checksum: [u8; 4]) -> (h: MessageHeader)
        ensures
            h == (MessageHeader { magic, command, length, checksum }),
    {
        MessageHeader { magic, command, length, checksum }
    }
}

impl Encode for MessageHeader {
    open spec fn encoding(&self) -> Seq<u8> {
        self.magic.encoding() + self.command.encoding() + self.length.encoding()
            + self.checksum.encoding()
    }

    fn net_encode(&self, w: &mut Vec<u8>) -> (n: usize) {
        let ghost w0 = w@;
        let before = w.len();
        self.magic.net_encode(w);
        self.command.net_encode(w);
        self.length.net_encode(w);
        self.checksum.net_encode(w);
        proof {
            assert(w@ =~= w0 + self.encoding());
        }
        w.len() - before
    }
}

impl Decode for MessageHeader {
    open spec fn decoded(s: Seq<u8>) -> Result<(MessageHeader, int), Error> {
        match <Magic as Decode>::decoded(s) {
            Err(e) => Err(e),
            Ok(pm) => match <Command as Decode>::decoded(s.skip(pm.1)) {
                Err(e) => Err(e),
                Ok(pc) => match <u32 as Decode>::decoded(s.skip(pm.1 + pc.1)) {
                    Err(e) => Err(e),
                    Ok(pl) => match <[u8; 4] as Decode>::decoded(s.skip(pm.1 + pc.1 + pl.1)) {
                        Err(e) => Err(e),
                        Ok(pk) => Ok(
                            (
                                MessageHeader {
                                    magic: pm.0,
                                    command: pc.0,
                                    length: pl.0,
                                    checksum: [pk.0[0], pk.0[1], pk.0[2], pk.0[3]],
                                },
                                pm.1 + pc.1 + pl.1 + pk.1,
                            ),
                        ),
                    },
                },
            },
        }
    }

    fn net_decode(r: &mut ByteReader) -> (res: Result<MessageHeader, Error>) {
        let ghost r0 = *r;
        let magic = match Magic::net_decode(r) {
            Ok(m) => m,
            Err(e) => {
                return Err(e);
            },
        };
        proof {
            lemma_remaining_skip(r0.data(), r0.pos(), r.pos());
        }
        let ghost r1 = *r;
        let command = match Command::net_decode(r) {
            Ok(c) => c,
            Err(e) => {
                return Err(e);
            },
        };
        proof {
            lemma_remaining_skip(r0.data(), r0.pos(), r.pos());
            assert(r.remaining() =~= r1.remaining().skip(r.pos() - r1.pos()));
        }
        let ghost r2 = *r;
        let length = match u32::net_decode(r) {
            Ok(l) => l,
            Err(e) => {
                return Err(e);
            },
        };
        proof {
            lemma_remaining_skip(r0.data(), r0.pos(), r.pos());
            assert(r.remaining() =~= r2.remaining().skip(r.pos() - r2.pos()));
        }
        let checksum = match <[u8; 4]>::net_decode(r) {
            Ok(c) => c,
            Err(e) => {
                return Err(e);
            },
        };
        let h = MessageHeader { magic, command, length, checksum };
        proof {
            let s = r0.remaining();
            let pm = <Magic as Decode>::decoded(s)->Ok_0;
            let pc = <Command as Decode>::decoded(s.skip(pm.1))->Ok_0;
            let pl = <u32 as Decode>::decoded(s.skip(pm.1 + pc.1))->Ok_0;
            let pk = <[u8; 4] as Decode>::decoded(s.skip(pm.1 + pc.1 + pl.1))->Ok_0;
            assert(checksum =~= [pk.0[0], pk.0[1], pk.0[2], pk.0[3]]);
        }
        Ok(h)
    }
}

/// Encoding a header and decoding the result yields an equal header and
/// consumes exactly the 24 header bytes, whatever bytes follow.  Holds for
/// every header whose magic names a known network.
pub proof fn lemma_header_round_trip(h: MessageHeader, rest: Seq<u8>)
    requires
        h.magic != Magic::Unknown,
    ensures
        <MessageHeader as Decode>::decoded(h.encoding() + rest) == Ok::<(MessageHeader, int), Error>(
            (h, 24),
        ),
        h.encoding().len() == 24,
{
    vstd::bytes::lemma_auto_spec_u32_to_from_le_bytes();
    let s = h.encoding() + rest;
    let tail1 = h.command.encoding() + (h.length.encoding() + (h.checksum.encoding() + rest));
    lemma_magic_round_trip(h.magic, tail1);
    assert(s =~= h.magic.encoding() + tail1);
    assert(s.skip(4) =~= tail1);
    let tail2 = h.length.encoding() + (h.checksum.encoding() + rest);
    lemma_command_round_trip(h.command, tail2);
    assert(s.skip(4).skip(12) =~= tail2);
    assert(s.skip(16) =~= tail2);
    let tail3 = h.checksum.encoding() + rest;
    lemma_u32_round_trip(h.length, tail3);
    assert(s.skip(20) =~= tail3);
    lemma_array4_round_trip(h.checksum, rest);
    let pk = <[u8; 4] as Decode>::decoded(s.skip(20))->Ok_0;
    assert([pk.0[0], pk.0[1], pk.0[2], pk.0[3]] =~= h.checksum);
}

} // verus!
