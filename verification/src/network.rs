//! Network sub-formats and the handshake payloads.
//!
//! `ServicesList` is a set of capability flags folded into one 8-byte
//! little-endian word.  `NetAddr` is a peer address: services word, the IP
//! in its 16-byte IPv4-mapped-IPv6 form, and a big-endian port.  A
//! `Timestamp` is whole seconds since the Unix epoch as a little-endian
//! 64-bit integer.  `VersionMessage` and `VerackMessage` are the two
//! handshake payloads.

use vstd::prelude::*;
use vstd::bytes::*;
use crate::encode::{Encode, Decode, Error, ByteReader, lemma_remaining_skip};
use crate::varint::lemma_varstring_round_trip;
use crate::prim::{lemma_u32_round_trip, lemma_u64_round_trip};

verus! {

/// A service capability flag.  Each flag is a single, distinct bit of the
/// 64-bit services word.
#[derive(Debug, Clone, Copy, PartialEq, Eq, Structural)]
pub enum Services {
    Network,
    GetUtxo,
    Bloom,
    Witness,
}

impl View for Services {
    type V = Services;

    open spec fn view(&self) -> Services {
        *self
    }
}

impl Services {
    /// The bit this flag occupies in the services word.
    pub open spec fn spec_value(&self) -> u64 {
        match self {
            Services::Network => 0x01,
            Services::GetUtxo => 0x02,
            Services::Bloom => 0x04,
            Services::Witness => 0x08,
        }
    }

    pub fn value(&self) -> (v: u64)
        ensures
            v == self.spec_value(),
    {
        match self {
            Services::Network => 0x01,
            Services::GetUtxo => 0x02,
            Services::Bloom => 0x04,
            Services::Witness => 0x08,
        }
    }
}

/// The services word named by a list of flags: the bitwise OR of their
/// values.
pub open spec fn flags_word(flags: Seq<Services>) -> u64
    decreases flags.len(),
{
    if flags.len() == 0 {
        0u64
    } else {
        flags_word(flags.drop_last()) | flags.last().spec_value()
    }
}

/// The canonical flag list of a services word: each known flag whose bit is
/// set, in declaration order.  Bits naming no known flag are ignored.
pub open spec fn word_flags(w: u64) -> Seq<Services> {
    (if w & 0x01 != 0 {
        seq![Services::Network]
    } else {
        Seq::<Services>::empty()
    }) + (if w & 0x02 != 0 {
        seq![Services::GetUtxo]
    } else {
        Seq::<Services>::empty()
    }) + (if w & 0x04 != 0 {
        seq![Services::Bloom]
    } else {
        Seq::<Services>::empty()
    }) + (if w & 0x08 != 0 {
        seq![Services::Witness]
    } else {
        Seq::<Services>::empty()
    })
}

/// A flag list is canonical when it is exactly the list its own word
/// decodes to: no duplicate bits, flags in declaration order.
pub open spec fn canonical_flags(flags: Seq<Services>) -> bool {
    flags == word_flags(flags_word(flags))
}

/// The set of service capability flags a peer advertises.
#[derive(Debug, Clone, PartialEq, Eq)]
pub struct ServicesList {
    flags: Vec<Services>,
}

impl View for ServicesList {
    type V = Seq<Services>;

    closed spec fn view(&self) -> Seq<Services> {
        self.flags@
    }
}

impl ServicesList {
    pub fn new() -> (s: ServicesList)
        ensures
            s@ == Seq::<Services>::empty(),
    {
        ServicesList { flags: Vec::new() }
    }

    pub fn add_flag(&mut self, f: Services)
        ensures
            final(self)@ == old(self)@.push(f),
    {
        self.flags.push(f);
    }

    pub fn get_flags(&self) -> (v: &Vec<Services>)
        ensures
            v@ == self@,
    {
        &self.flags
    }
}

impl Encode for ServicesList {
    open spec fn encoding(&self) -> Seq<u8> {
        spec_u64_to_le_bytes(flags_word(self@))
    }

    fn net_encode(&self, w: &mut Vec<u8>) -> (n: usize) {
        let mut word: u64 = 0;
        let mut i: usize = 0;
        while i < self.flags.len()
            invariant
                i <= self@.len(),
                word == flags_word(self@.take(i as int)),
            decreases self@.len() - i,
        {
            word = word | self.flags[i].value();
            proof {
                assert(self@.take(i + 1).drop_last() =~= self@.take(i as int));
                assert(self@.take(i + 1).last() == self@[i as int]);
            }
            i = i + 1;
        }
        proof {
            assert(self@.take(self@.len() as int) =~= self@);
        }
        word.net_encode(w)
    }
}

impl Decode for ServicesList {
    open spec fn decoded(s: Seq<u8>) -> Result<(Seq<Services>, int), Error> {
        match <u64 as Decode>::decoded(s) {
            Err(e) => Err(e),
            Ok(p) => Ok((word_flags(p.0), p.1)),
        }
    }

    fn net_decode(r: &mut ByteReader) -> (res: Result<ServicesList, Error>) {
        let word = match u64::net_decode(r) {
            Ok(x) => x,
            Err(e) => {
                return Err(e);
            },
        };
        let mut flags: Vec<Services> = Vec::new();
        if word & 0x01 != 0 {
            flags.push(Services::Network);
        }
        if word & 0x02 != 0 {
            flags.push(Services::GetUtxo);
        }
        if word & 0x04 != 0 {
            flags.push(Services::Bloom);
        }
        if word & 0x08 != 0 {
            flags.push(Services::Witness);
        }
        proof {
            assert(flags@ =~= word_flags(word));
        }
        Ok(ServicesList { flags })
    }
}

/// Encoding a canonical flag list and decoding the result reproduces the
/// list, whatever bytes follow; the wire form is always 8 bytes.
pub proof fn lemma_services_round_trip(l: ServicesList, rest: Seq<u8>)
    requires
        canonical_flags(l@),
    ensures
        <ServicesList as Decode>::decoded(l.encoding() + rest) == Ok::<(Seq<Services>, int), Error>(
            (l@, 8),
        ),
        l.encoding().len() == 8,
{
    lemma_auto_spec_u64_to_from_le_bytes();
    lemma_u64_round_trip(flags_word(l@), rest);
}

/// An IPv4 address `a.b.c.d`, transmitted in its 16-byte IPv4-mapped-IPv6
/// form `00..00 FF FF a b c d`.
#[derive(Debug, Clone, Copy, PartialEq, Eq, Structural)]
pub struct Ipv4Address {
    pub a: u8,
    pub b: u8,
    pub c: u8,
    pub d: u8,
}

impl View for Ipv4Address {
    type V = Ipv4Address;

    open spec fn view(&self) -> Ipv4Address {
        *self
    }
}

impl Ipv4Address {
    pub fn new(a: u8, b: u8, c: u8, d: u8) -> (ip: Ipv4Address)
        ensures
            ip == (Ipv4Address { a, b, c, d }),
    {
        Ipv4Address { a, b, c, d }
    }
}

impl Encode for Ipv4Address {
    open spec fn encoding(&self) -> Seq<u8> {
        seq![
            0u8, 0u8, 0u8, 0u8, 0u8, 0u8, 0u8, 0u8, 0u8, 0u8, 0xFFu8, 0xFFu8,
            self.a, self.b, self.c, self.d,
        ]
    }

    fn net_encode(&self, w: &mut Vec<u8>) -> (n: usize) {
        let ghost w0 = w@;
        let mut i: usize = 0;
        while i < 10
            invariant
                i <= 10,
                w@ == w0 + Seq::new(i as nat, |j: int| 0u8),
            decreases 10 - i,
        {
            w.push(0x00);
            proof {
                assert(w@ =~= w0 + Seq::new((i + 1) as nat, |j: int| 0u8));
            }
            i = i + 1;
        }
        w.push(0xFF);
        w.push(0xFF);
        w.push(self.a);
        w.push(self.b);
        w.push(self.c);
        w.push(self.d);
        proof {
            assert(w@ =~= w0 + self.encoding());
        }
        16
    }
}

impl Decode for Ipv4Address {
    open spec fn decoded(s: Seq<u8>) -> Result<(Ipv4Address, int), Error> {
        if s.len() < 16 {
            Err(Error::Truncated)
        } else if s[0] == 0 && s[1] == 0 && s[2] == 0 && s[3] == 0 && s[4] == 0 && s[5] == 0 && s[6]
            == 0 && s[7] == 0 && s[8] == 0 && s[9] == 0 && s[10] == 0xFF && s[11] == 0xFF {
            Ok((Ipv4Address { a: s[12], b: s[13], c: s[14], d: s[15] }, 16))
        } else {
            Err(Error::InvalidData)
        }
    }

    fn net_decode(r: &mut ByteReader) -> (res: Result<Ipv4Address, Error>) {
        let v = match r.read_bytes(16) {
            Ok(v) => v,
            Err(e) => {
                return Err(e);
            },
        };
        if v[0] == 0 && v[1] == 0 && v[2] == 0 && v[3] == 0 && v[4] == 0 && v[5] == 0 && v[6] == 0
            && v[7] == 0 && v[8] == 0 && v[9] == 0 && v[10] == 0xFF && v[11] == 0xFF {
            Ok(Ipv4Address { a: v[12], b: v[13], c: v[14], d: v[15] })
        } else {
            Err(Error::InvalidData)
        }
    }
}

/// Encoding an address and decoding the result reproduces it, whatever
/// bytes follow; the wire form is always 16 bytes.
pub proof fn lemma_ipv4_round_trip(ip: Ipv4Address, rest: Seq<u8>)
    ensures
        <Ipv4Address as Decode>::decoded(ip.encoding() + rest) == Ok::<(Ipv4Address, int), Error>(
            (ip, 16),
        ),
        ip.encoding().len() == 16,
{
    let s = ip.encoding() + rest;
    assert(s[12] == ip.a && s[13] == ip.b && s[14] == ip.c && s[15] == ip.d);
}

/// A TCP port.  Alone among the protocol's integer fields it is encoded in
/// network byte order: big-endian, high byte first.
#[derive(Debug, Clone, Copy, PartialEq, Eq, Structural)]
pub struct Port(pub u16);

impl View for Port {
    type V = Port;

    open spec fn view(&self) -> Port {
        *self
    }
}

impl Encode for Port {
    open spec fn encoding(&self) -> Seq<u8> {
        seq![(self.0 / 256) as u8, (self.0 % 256) as u8]
    }

    fn net_encode(&self, w: &mut Vec<u8>) -> (n: usize) {
        let ghost w0 = w@;
        w.push((self.0 / 256) as u8);
        w.push((self.0 % 256) as u8);
        proof {
            assert(w@ =~= w0 + self.encoding());
        }
        2
    }
}

impl Decode for Port {
    open spec fn decoded(s: Seq<u8>) -> Result<(Port, int), Error> {
        if s.len() < 2 {
            Err(Error::Truncated)
        } else {
            Ok((Port(((s[0] as int) * 256 + (s[1] as int)) as u16), 2))
        }
    }

    fn net_decode(r: &mut ByteReader) -> (res: Result<Port, Error>) {
        let hi = match r.read_byte() {
            Ok(b) => b,
            Err(e) => {
                return Err(e);
            },
        };
        let lo = match r.read_byte() {
            Ok(b) => b,
            Err(e) => {
                return Err(e);
            },
        };
        Ok(Port((hi as u16) * 256 + (lo as u16)))
    }
}

/// Encoding a port and decoding the result reproduces it, whatever bytes
/// follow.
pub proof fn lemma_port_round_trip(p: Port, rest: Seq<u8>)
    ensures
        <Port as Decode>::decoded(p.encoding() + rest) == Ok::<(Port, int), Error>((p, 2)),
        p.encoding().len() == 2,
{
    let s = p.encoding() + rest;
    assert(s[0] == (p.0 / 256) as u8 && s[1] == (p.0 % 256) as u8);
}

/// A point in time as whole seconds since the Unix epoch, encoded as a
/// little-endian 64-bit integer.
#[derive(Debug, Clone, Copy, PartialEq, Eq, Structural)]
pub struct Timestamp(pub u64);

impl View for Timestamp {
    type V = Timestamp;

    open spec fn view(&self) -> Timestamp {
        *self
    }
}

impl Encode for Timestamp {
    open spec fn encoding(&self) -> Seq<u8> {
        spec_u64_to_le_bytes(self.0)
    }

    fn net_encode(&self, w: &mut Vec<u8>) -> (n: usize) {
        self.0.net_encode(w)
    }
}

impl Decode for Timestamp {
    open spec fn decoded(s: Seq<u8>) -> Result<(Timestamp, int), Error> {
        match <u64 as Decode>::decoded(s) {
            Err(e) => Err(e),
            Ok(p) => Ok((Timestamp(p.0), p.1)),
        }
    }

    fn net_decode(r: &mut ByteReader) -> (res: Result<Timestamp, Error>) {
        match u64::net_decode(r) {
            Ok(x) => Ok(Timestamp(x)),
            Err(e) => Err(e),
        }
    }
}

/// A peer's address as embedded in protocol payloads: services word, IP,
/// port.
#[derive(Debug, Clone, PartialEq, Eq)]
pub struct NetAddr {
    pub services: ServicesList,
    pub ip: Ipv4Address,
    pub port: Port,
}

/// The mathematical view of a `NetAddr`.
pub struct NetAddrV {
    pub services: Seq<Services>,
    pub ip: Ipv4Address,
    pub port: Port,
}

impl View for NetAddr {
    type V = NetAddrV;

    open spec fn view(&self) -> NetAddrV {
        NetAddrV { services: self.services@, ip: self.ip, port: self.port }
    }
}

impl NetAddr {
    pub fn new(services: ServicesList, ip: Ipv4Address, port: Port) -> (addr: NetAddr)
        ensures
            addr@ == (NetAddrV { services: services@, ip, port }),
    {
        NetAddr { services, ip, port }
    }
}

impl Encode for NetAddr {
    open spec fn encoding(&self) -> Seq<u8> {
        self.services.encoding() + self.ip.encoding() + self.port.encoding()
    }

    fn net_encode(&self, w: &mut Vec<u8>) -> (n: usize) {
        let ghost w0 = w@;
        let before = w.len();
        self.services.net_encode(w);
        self.ip.net_encode(w);
        self.port.net_encode(w);
        proof {
            assert(w@ =~= w0 + self.encoding());
        }
        w.len() - before
    }
}

impl Decode for NetAddr {
    open spec fn decoded(s: Seq<u8>) -> Result<(NetAddrV, int), Error> {
        match <ServicesList as Decode>::decoded(s) {
            Err(e) => Err(e),
            Ok(ps) => match <Ipv4Address as Decode>::decoded(s.skip(ps.1)) {
                Err(e) => Err(e),
                Ok(pi) => match <Port as Decode>::decoded(s.skip(ps.1 + pi.1)) {
                    Err(e) => Err(e),
                    Ok(pp) => Ok(
                        (NetAddrV { services: ps.0, ip: pi.0, port: pp.0 }, ps.1 + pi.1 + pp.1),
                    ),
                },
            },
        }
    }

    fn net_decode(r: &mut ByteReader) -> (res: Result<NetAddr, Error>) {
        let ghost r0 = *r;
        let services = match ServicesList::net_decode(r) {
            Ok(s) => s,
            Err(e) => {
                return Err(e);
            },
        };
        proof {
            lemma_remaining_skip(r0.data(), r0.pos(), r.pos());
        }
        let ip = match Ipv4Address::net_decode(r) {
            Ok(ip) => ip,
            Err(e) => {
                return Err(e);
            },
        };
        proof {
            lemma_remaining_skip(r0.data(), r0.pos(), r.pos());
        }
        let port = match Port::net_decode(r) {
            Ok(p) => p,
            Err(e) => {
                return Err(e);
            },
        };
        Ok(NetAddr { services, ip, port })
    }
}

/// Encoding a peer address and decoding the result reproduces it, whatever
/// bytes follow; the wire form is always 26 bytes.  Holds for every address
/// whose flag list is canonical.
pub proof fn lemma_netaddr_round_trip(addr: NetAddr, rest: Seq<u8>)
    requires
        canonical_flags(addr.services@),
    ensures
        <NetAddr as Decode>::decoded(addr.encoding() + rest) == Ok::<(NetAddrV, int), Error>(
            (addr@, 26),
        ),
        addr.encoding().len() == 26,
{
    let s = addr.encoding() + rest;
    let tail1 = addr.ip.encoding() + (addr.port.encoding() + rest);
    lemma_services_round_trip(addr.services, tail1);
    assert(s =~= addr.services.encoding() + tail1);
    assert(s.skip(8) =~= tail1);
    let tail2 = addr.port.encoding() + rest;
    lemma_ipv4_round_trip(addr.ip, tail2);
    assert(s.skip(24) =~= tail2);
    lemma_port_round_trip(addr.port, rest);
}

/// The handshake acknowledgement.  Its payload is empty: encoding writes
/// nothing, decoding consumes nothing and always succeeds.
#[derive(Debug, Clone, Copy, PartialEq, Eq, Structural)]
pub struct VerackMessage;

impl View for VerackMessage {
    type V = VerackMessage;

    open spec fn view(&self) -> VerackMessage {
        *self
    }
}

impl VerackMessage {
    pub fn new() -> (m: VerackMessage)
        ensures
            m == VerackMessage,
    {
        VerackMessage
    }
}

impl Default for VerackMessage {
    fn default() -> (m: VerackMessage)
        ensures
            m == VerackMessage,
    {
        VerackMessage
    }
}

impl Encode for VerackMessage {
    open spec fn encoding(&self) -> Seq<u8> {
        Seq::empty()
    }

    fn net_encode(&self, w: &mut Vec<u8>) -> (n: usize) {
        proof {
            assert(w@ =~= w@ + self.encoding());
        }
        0
    }
}

impl Decode for VerackMessage {
    open spec fn decoded(s: Seq<u8>) -> Result<(VerackMessage, int), Error> {
        Ok((VerackMessage, 0))
    }

    fn net_decode(r: &mut ByteReader) -> (res: Result<VerackMessage, Error>) {
        Ok(VerackMessage)
    }
}

/// A `VerackMessage` encodes to zero bytes, and decoding one from any byte
/// sequence, the empty one included, succeeds while consuming nothing.
pub proof fn lemma_verack_payload(m: VerackMessage, s: Seq<u8>)
    ensures
        m.encoding() == Seq::<u8>::empty(),
        <VerackMessage as Decode>::decoded(s) == Ok::<(VerackMessage, int), Error>(
            (VerackMessage, 0),
        ),
{
}

/// The handshake payload announcing a node's capabilities.
///
/// The `relay` byte is present unconditionally; on decode a zero byte reads
/// as `false` and any nonzero byte as `true`.
#[derive(Debug, Clone, PartialEq, Eq)]
pub struct VersionMessage {
    pub version: u32,
    pub services: ServicesList,
    pub timestamp: Timestamp,
    pub addr_recv: NetAddr,
    pub addr_from: NetAddr,
    pub nonce: u64,
    pub agent: Vec<u8>,
    pub start_height: u32,
    pub relay: bool,
}

/// The mathematical view of a `VersionMessage`.
pub struct VersionMessageV {
    pub version: u32,
    pub services: Seq<Services>,
    pub timestamp: Timestamp,
    pub addr_recv: NetAddrV,
    pub addr_from: NetAddrV,
    pub nonce: u64,
    pub agent: Seq<u8>,
    pub start_height: u32,
    pub relay: bool,
}

impl View for VersionMessage {
    type V = VersionMessageV;

    open spec fn view(&self) -> VersionMessageV {
        VersionMessageV {
            version: self.version,
            services: self.services@,
            timestamp: self.timestamp,
            addr_recv: self.addr_recv@,
            addr_from: self.addr_from@,
            nonce: self.nonce,
            agent: self.agent@,
            start_height: self.start_height,
            relay: self.relay,
        }
    }
}

impl VersionMessage {
    pub fn new(
        version: u32,
        services: ServicesList,
        timestamp: Timestamp,
        addr_recv: NetAddr,
        addr_from: NetAddr,
        nonce: u64,
        agent: Vec<u8>,
        start_height: u32,
        relay: bool,
    ) -> (m: VersionMessage)
        ensures
            m == (VersionMessage {
                version,
                services,
                timestamp,
                addr_recv,
                addr_from,
                nonce,
                agent,
                start_height,
                relay,
            }),
    {
        VersionMessage {
            version,
            services,
            timestamp,
            addr_recv,
            addr_from,
            nonce,
            agent,
            start_height,
            relay,
        }
    }
}

/// The single relay byte: 1 for `true`, 0 for `false`.
pub open spec fn relay_byte(relay: bool) -> u8 {
    if relay {
        1u8
    } else {
        0u8
    }
}

impl Encode for VersionMessage {
    open spec fn encoding(&self) -> Seq<u8> {
        self.version.encoding() + self.services.encoding() + self.timestamp.encoding()
            + self.addr_recv.encoding() + self.addr_from.encoding() + self.nonce.encoding()
            + self.agent.encoding() + self.start_height.encoding() + seq![relay_byte(self.relay)]
    }

    fn net_encode(&self, w: &mut Vec<u8>) -> (n: usize) {
        let ghost w0 = w@;
        let before = w.len();
        self.version.net_encode(w);
        self.services.net_encode(w);
        self.timestamp.net_encode(w);
        self.addr_recv.net_encode(w);
        self.addr_from.net_encode(w);
        self.nonce.net_encode(w);
        self.agent.net_encode(w);
        self.start_height.net_encode(w);
        let relay: u8 = if self.relay {
            1
        } else {
            0
        };
        relay.net_encode(w);
        proof {
            assert(w@ =~= w0 + self.encoding());
        }
        w.len() - before
    }
}

impl Decode for VersionMessage {
    open spec fn decoded(s: Seq<u8>) -> Result<(VersionMessageV, int), Error> {
        match <u32 as Decode>::decoded(s) {
            Err(e) => Err(e),
            Ok(pv) => match <ServicesList as Decode>::decoded(s.skip(pv.1)) {
                Err(e) => Err(e),
                Ok(ps) => match <Timestamp as Decode>::decoded(s.skip(pv.1 + ps.1)) {
                    Err(e) => Err(e),
                    Ok(pt) => match <NetAddr as Decode>::decoded(s.skip(pv.1 + ps.1 + pt.1)) {
                        Err(e) => Err(e),
                        Ok(pr) => match <NetAddr as Decode>::decoded(
                            s.skip(pv.1 + ps.1 + pt.1 + pr.1),
                        ) {
                            Err(e) => Err(e),
                            Ok(pf) => match <u64 as Decode>::decoded(
                                s.skip(pv.1 + ps.1 + pt.1 + pr.1 + pf.1),
                            ) {
                                Err(e) => Err(e),
                                Ok(pn) => match <Vec<u8> as Decode>::decoded(
                                    s.skip(pv.1 + ps.1 + pt.1 + pr.1 + pf.1 + pn.1),
                                ) {
                                    Err(e) => Err(e),
                                    Ok(pa) => match <u32 as Decode>::decoded(
                                        s.skip(pv.1 + ps.1 + pt.1 + pr.1 + pf.1 + pn.1 + pa.1),
                                    ) {
                                        Err(e) => Err(e),
                                        Ok(ph) => match <u8 as Decode>::decoded(
                                            s.skip(
                                                pv.1 + ps.1 + pt.1 + pr.1 + pf.1 + pn.1 + pa.1
                                                    + ph.1,
                                            ),
                                        ) {
                                            Err(e) => Err(e),
                                            Ok(pb) => Ok(
                                                (
                                                    VersionMessageV {
                                                        version: pv.0,
                                                        services: ps.0,
                                                        timestamp: pt.0,
                                                        addr_recv: pr.0,
                                                        addr_from: pf.0,
                                                        nonce: pn.0,
                                                        agent: pa.0,
                                                        start_height: ph.0,
                                                        relay: pb.0 != 0,
                                                    },
                                                    pv.1 + ps.1 + pt.1 + pr.1 + pf.1 + pn.1 + pa.1
                                                        + ph.1 + pb.1,
                                                ),
                                            ),
                                        },
                                    },
                                },
                            },
                        },
                    },
                },
            },
        }
    }

    fn net_decode(r: &mut ByteReader) -> (res: Result<VersionMessage, Error>) {
        let ghost r0 = *r;
        let version = match u32::net_decode(r) {
            Ok(x) => x,
            Err(e) => {
                return Err(e);
            },
        };
        proof {
            lemma_remaining_skip(r0.data(), r0.pos(), r.pos());
        }
        let services = match ServicesList::net_decode(r) {
            Ok(x) => x,
            Err(e) => {
                return Err(e);
            },
        };
        proof {
            lemma_remaining_skip(r0.data(), r0.pos(), r.pos());
        }
        let timestamp = match Timestamp::net_decode(r) {
            Ok(x) => x,
            Err(e) => {
                return Err(e);
            },
        };
        proof {
            lemma_remaining_skip(r0.data(), r0.pos(), r.pos());
        }
        let addr_recv = match NetAddr::net_decode(r) {
            Ok(x) => x,
            Err(e) => {
                return Err(e);
            },
        };
        proof {
            lemma_remaining_skip(r0.data(), r0.pos(), r.pos());
        }
        let addr_from = match NetAddr::net_decode(r) {
            Ok(x) => x,
            Err(e) => {
                return Err(e);
            },
        };
        proof {
            lemma_remaining_skip(r0.data(), r0.pos(), r.pos());
        }
        let nonce = match u64::net_decode(r) {
            Ok(x) => x,
            Err(e) => {
                return Err(e);
            },
        };
        proof {
            lemma_remaining_skip(r0.data(), r0.pos(), r.pos());
        }
        let agent = match <Vec<u8>>::net_decode(r) {
            Ok(x) => x,
            Err(e) => {
                return Err(e);
            },
        };
        proof {
            lemma_remaining_skip(r0.data(), r0.pos(), r.pos());
        }
        let start_height = match u32::net_decode(r) {
            Ok(x) => x,
            Err(e) => {
                return Err(e);
            },
        };
        proof {
            lemma_remaining_skip(r0.data(), r0.pos(), r.pos());
        }
        let relay_raw = match u8::net_decode(r) {
            Ok(x) => x,
            Err(e) => {
                return Err(e);
            },
        };
        Ok(
            VersionMessage {
                version,
                services,
                timestamp,
                addr_recv,
                addr_from,
                nonce,
                agent,
                start_height,
                relay: relay_raw != 0,
            },
        )
    }
}

/// Whether a version payload is well formed: its flag lists are canonical
/// and its user-agent length is representable on the wire.  Every payload
/// built from canonical services lists satisfies this.
pub open spec fn version_wf(m: VersionMessage) -> bool {
    &&& canonical_flags(m.services@)
    &&& canonical_flags(m.addr_recv.services@)
    &&& canonical_flags(m.addr_from.services@)
    &&& m.agent@.len() <= u64::MAX
}

/// Encoding a well-formed version payload and decoding the result
/// reproduces the payload, field for field, whatever bytes follow.
#[verifier::spinoff_prover]
#[verifier::rlimit(100)]
pub proof fn lemma_version_round_trip(m: VersionMessage, rest: Seq<u8>)
    requires
        version_wf(m),
    ensures
        <VersionMessage as Decode>::decoded(m.encoding() + rest) == Ok::<
            (VersionMessageV, int),
            Error,
        >((m@, m.encoding().len() as int)),
{
    lemma_auto_spec_u32_to_from_le_bytes();
    lemma_auto_spec_u64_to_from_le_bytes();
    let s = m.encoding() + rest;
    let t8 = seq![relay_byte(m.relay)] + rest;
    let t7 = m.start_height.encoding() + t8;
    let t6 = m.agent.encoding() + t7;
    let t5 = m.nonce.encoding() + t6;
    let t4 = m.addr_from.encoding() + t5;
    let t3 = m.addr_recv.encoding() + t4;
    let t2 = m.timestamp.encoding() + t3;
    let t1 = m.services.encoding() + t2;
    assert(s =~= m.version.encoding() + t1);
    lemma_u32_round_trip(m.version, t1);
    assert(s.skip(4) =~= t1);
    lemma_services_round_trip(m.services, t2);
    assert(s.skip(12) =~= t2);
    lemma_u64_round_trip(m.timestamp.0, t3);
    assert(s.skip(20) =~= t3);
    lemma_netaddr_round_trip(m.addr_recv, t4);
    assert(s.skip(46) =~= t4);
    lemma_netaddr_round_trip(m.addr_from, t5);
    assert(s.skip(72) =~= t5);
    lemma_u64_round_trip(m.nonce, t6);
    assert(s.skip(80) =~= t6);
    lemma_varstring_round_trip(m.agent@, t7);
    let alen = m.agent.encoding().len() as int;
    assert(s.skip(80 + alen) =~= t7);
    lemma_u32_round_trip(m.start_height, t8);
    assert(s.skip(84 + alen) =~= t8);
    assert(t8[0] == relay_byte(m.relay));
    assert((relay_byte(m.relay) != 0) == m.relay);
}

} // verus!
