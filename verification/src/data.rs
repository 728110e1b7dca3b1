//! A complete wire message, and the dispatch from a header's command to
//! the payload decoder it selects.
//!
//! Decoding is two-phase: one header is read, then its command picks the
//! payload decoder for the remaining bytes.  A command with no registered
//! payload decoder is an `UnsupportedCommand` failure, never a silent
//! skip.  Adding a command means adding one payload variant and one
//! dispatch arm; nothing else changes.

use vstd::prelude::*;
use crate::encode::{Encode, Decode, Error, ByteReader, lemma_remaining_skip};
use crate::header::{Magic, Command, MessageHeader, lemma_header_round_trip};
use crate::network::{
    VersionMessage, VersionMessageV, VerackMessage, version_wf, lemma_version_round_trip,
};

verus! {

/// The payload of one wire message: exactly one variant is active, and the
/// enclosing header's command must name it.
#[derive(Debug, Clone, PartialEq, Eq)]
pub enum MessagePayload {
    Version(VersionMessage),
    Verack(VerackMessage),
}

/// The mathematical view of a `MessagePayload`.
pub enum MessagePayloadV {
    Version(VersionMessageV),
    Verack(VerackMessage),
}

impl View for MessagePayload {
    type V = MessagePayloadV;

    open spec fn view(&self) -> MessagePayloadV {
        match self {
            MessagePayload::Version(v) => MessagePayloadV::Version(v@),
            MessagePayload::Verack(v) => MessagePayloadV::Verack(*v),
        }
    }
}

impl From<VersionMessage> for MessagePayload {
    fn from(v: VersionMessage) -> (p: MessagePayload) {
        MessagePayload::Version(v)
    }
}

impl vstd::std_specs::convert::FromSpecImpl<VersionMessage> for MessagePayload {
    open spec fn obeys_from_spec() -> bool {
        true
    }

    open spec fn from_spec(v: VersionMessage) -> MessagePayload {
        MessagePayload::Version(v)
    }
}

impl From<VerackMessage> for MessagePayload {
    fn from(v: VerackMessage) -> (p: MessagePayload) {
        MessagePayload::Verack(v)
    }
}

impl vstd::std_specs::convert::FromSpecImpl<VerackMessage> for MessagePayload {
    open spec fn obeys_from_spec() -> bool {
        true
    }

    open spec fn from_spec(v: VerackMessage) -> MessagePayload {
        MessagePayload::Verack(v)
    }
}

impl MessagePayload {
    /// The command that names this payload's type on the wire.
    pub open spec fn spec_command(&self) -> Command {
        match self {
            MessagePayload::Version(_) => Command::Version,
            MessagePayload::Verack(_) => Command::Verack,
        }
    }

    pub fn command(&self) -> (c: Command)
        ensures
            c == self.spec_command(),
    {
        match self {
            MessagePayload::Version(_) => Command::Version,
            MessagePayload::Verack(_) => Command::Verack,
        }
    }
}

impl Encode for MessagePayload {
    open spec fn encoding(&self) -> Seq<u8> {
        match self {
            MessagePayload::Version(v) => v.encoding(),
            MessagePayload::Verack(v) => v.encoding(),
        }
    }

    fn net_encode(&self, w: &mut Vec<u8>) -> (n: usize) {
        match self {
            MessagePayload::Version(v) => v.net_encode(w),
            MessagePayload::Verack(v) => v.net_encode(w),
        }
    }
}

/// One complete wire message: envelope and payload.
///
/// The producer is responsible for a header whose command names the
/// payload's variant and whose length is the payload's byte count;
/// `Message::new` establishes both.  The codec does not re-validate them
/// on encode.
#[derive(Debug, Clone, PartialEq, Eq)]
pub struct Message {
    pub header: MessageHeader,
    pub payload: MessagePayload,
}

/// The mathematical view of a `Message`.
pub struct MessageV {
    pub header: MessageHeader,
    pub payload: MessagePayloadV,
}

impl View for Message {
    type V = MessageV;

    open spec fn view(&self) -> MessageV {
        MessageV { header: self.header, payload: self.payload@ }
    }
}

impl Message {
    /// Build a message around `payload`: the header names the given
    /// network and command, carries the payload's exact byte count, and a
    /// zero checksum until `set_checksum` stores the externally computed
    /// one.
    pub fn new(payload: MessagePayload, magic: Magic, command: Command) -> (m: Message)
        requires
            payload.encoding().len() <= u32::MAX,
        ensures
            m.header.magic == magic,
            m.header.command == command,
            m.header.length == payload.encoding().len(),
            m.header.checksum@ == seq![0u8, 0u8, 0u8, 0u8],
            m.payload == payload,
    {
        let mut probe: Vec<u8> = Vec::new();
        let n = payload.net_encode(&mut probe);
        let checksum: [u8; 4] = [0, 0, 0, 0];
        proof {
            assert(checksum@ =~= seq![0u8, 0u8, 0u8, 0u8]);
        }
        Message {
            header: MessageHeader { magic, command, length: n as u32, checksum },
            payload,
        }
    }

    /// Store the 4 checksum bytes an external hashing collaborator
    /// computed over the payload.
    pub fn set_checksum(&mut self, checksum: [u8; 4])
        ensures
            final(self).header.checksum == checksum,
            final(self).header.magic == old(self).header.magic,
            final(self).header.command == old(self).header.command,
            final(self).header.length == old(self).header.length,
            final(self).payload == old(self).payload,
    {
        self.header.checksum = checksum;
    }
}

impl Encode for Message {
    open spec fn encoding(&self) -> Seq<u8> {
        self.header.encoding() + self.payload.encoding()
    }

    fn net_encode(&self, w: &mut Vec<u8>) -> (n: usize) {
        let ghost w0 = w@;
        let before = w.len();
        self.header.net_encode(w);
        self.payload.net_encode(w);
        proof {
            assert(w@ =~= w0 + self.encoding());
        }
        w.len() - before
    }
}

impl Decode for Message {
    open spec fn decoded(s: Seq<u8>) -> Result<(MessageV, int), Error> {
        match <MessageHeader as Decode>::decoded(s) {
            Err(e) => Err(e),
            Ok(ph) => match ph.0.command {
                Command::Version => match <VersionMessage as Decode>::decoded(s.skip(ph.1)) {
                    Err(e) => Err(e),
                    Ok(pp) => Ok(
                        (
                            MessageV { header: ph.0, payload: MessagePayloadV::Version(pp.0) },
                            ph.1 + pp.1,
                        ),
                    ),
                },
                Command::Verack => match <VerackMessage as Decode>::decoded(s.skip(ph.1)) {
                    Err(e) => Err(e),
                    Ok(pp) => Ok(
                        (
                            MessageV { header: ph.0, payload: MessagePayloadV::Verack(pp.0) },
                            ph.1 + pp.1,
                        ),
                    ),
                },
                Command::Ping => Err(Error::UnsupportedCommand),
            },
        }
    }

    fn net_decode(r: &mut ByteReader) -> (res: Result<Message, Error>) {
        let ghost r0 = *r;
        let header = match MessageHeader::net_decode(r) {
            Ok(h) => h,
            Err(e) => {
                return Err(e);
            },
        };
        proof {
            lemma_remaining_skip(r0.data(), r0.pos(), r.pos());
        }
        let payload: MessagePayload = match header.command {
            Command::Version => match VersionMessage::net_decode(r) {
                Ok(v) => MessagePayload::Version(v),
                Err(e) => {
                    return Err(e);
                },
            },
            Command::Verack => match VerackMessage::net_decode(r) {
                Ok(v) => MessagePayload::Verack(v),
                Err(e) => {
                    return Err(e);
                },
            },
            Command::Ping => {
                return Err(Error::UnsupportedCommand);
            },
        };
        Ok(Message { header, payload })
    }
}

/// A message is well formed when its header names a known network, its
/// header's command names its payload's variant, and the payload itself is
/// well formed.  This is the producer obligation `Message::new`
/// establishes.
pub open spec fn message_wf(m: Message) -> bool {
    &&& m.header.magic != Magic::Unknown
    &&& m.header.command == m.payload.spec_command()
    &&& match m.payload {
        MessagePayload::Version(v) => version_wf(v),
        MessagePayload::Verack(_) => true,
    }
}

/// Encoding a well-formed message and decoding the result reproduces the
/// message, header and payload, whatever bytes follow.
pub proof fn lemma_message_round_trip(m: Message, rest: Seq<u8>)
    requires
        message_wf(m),
    ensures
        <Message as Decode>::decoded(m.encoding() + rest) == Ok::<(MessageV, int), Error>(
            (m@, m.encoding().len() as int),
        ),
{
    let s = m.encoding() + rest;
    let tail = m.payload.encoding() + rest;
    lemma_header_round_trip(m.header, tail);
    assert(s =~= m.header.encoding() + tail);
    assert(s.skip(24) =~= tail);
    match m.payload {
        MessagePayload::Version(v) => {
            lemma_version_round_trip(v, rest);
        },
        MessagePayload::Verack(_) => {},
    }
}

/// A message whose header names the `Verack` command decodes by consuming
/// the header bytes alone: the empty acknowledgement payload takes no
/// payload bytes from the source.
pub proof fn lemma_verack_dispatch(s: Seq<u8>, h: MessageHeader, n: int)
    requires
        <MessageHeader as Decode>::decoded(s) == Ok::<(MessageHeader, int), Error>((h, n)),
        h.command == Command::Verack,
    ensures
        <Message as Decode>::decoded(s) == Ok::<(MessageV, int), Error>(
            (MessageV { header: h, payload: MessagePayloadV::Verack(VerackMessage) }, n),
        ),
{
}

/// A message whose header names a command with no registered payload
/// decoder fails with `UnsupportedCommand`.
pub proof fn lemma_unsupported_command(s: Seq<u8>, h: MessageHeader, n: int)
    requires
        <MessageHeader as Decode>::decoded(s) == Ok::<(MessageHeader, int), Error>((h, n)),
        h.command == Command::Ping,
    ensures
        <Message as Decode>::decoded(s) == Err::<(MessageV, int), Error>(
            Error::UnsupportedCommand,
        ),
{
}

} // verus!
