use bittune::encode::{Encode, Decode, Error, ByteReader};
use bittune::varint::VariableInteger;
use bittune::header::{Magic, Command, MessageHeader};
use bittune::network::{
    Services, ServicesList, Ipv4Address, Port, Timestamp, NetAddr, VersionMessage, VerackMessage,
};
use bittune::data::{Message, MessagePayload};

fn services(flags: &[Services]) -> ServicesList {
    let mut list = ServicesList::new();
    for f in flags {
        list.add_flag(*f);
    }
    list
}

fn sample_version() -> VersionMessage {
    VersionMessage::new(
        70015,
        services(&[Services::Network]),
        Timestamp(1_700_000_000),
        NetAddr::new(services(&[Services::Network]), Ipv4Address::new(10, 0, 0, 1), Port(8333)),
        NetAddr::new(services(&[]), Ipv4Address::new(192, 168, 1, 2), Port(8333)),
        0x0123_4567_89AB_CDEF,
        b"/bittune:0.1.0/".to_vec(),
        812_345,
        true,
    )
}

#[test]
fn varint_exact_bytes() {
    let mut enc: Vec<u8> = Vec::new();
    VariableInteger(0xFD).net_encode(&mut enc);
    assert_eq!(enc, [0xFD, 0xFD, 0x00]);

    let mut enc: Vec<u8> = Vec::new();
    VariableInteger(0x10000).net_encode(&mut enc);
    assert_eq!(enc, [0xFE, 0x00, 0x00, 0x01, 0x00]);
}

#[test]
fn varint_truncated() {
    let res = VariableInteger::net_decode(&mut ByteReader::new(vec![0xFD, 0x01]));
    assert_eq!(res, Err(Error::Truncated));

    let res = VariableInteger::net_decode(&mut ByteReader::new(Vec::new()));
    assert_eq!(res, Err(Error::Truncated));
}

#[test]
fn integer_truncated() {
    let res = u32::net_decode(&mut ByteReader::new(vec![0x01, 0x02]));
    assert_eq!(res, Err(Error::Truncated));
}

#[test]
fn magic_unknown_rejected() {
    let res = Magic::net_decode(&mut ByteReader::new(vec![0x00, 0x01, 0x02, 0x03]));
    assert_eq!(res, Err(Error::InvalidData));
}

#[test]
fn command_exact_bytes() {
    let mut enc: Vec<u8> = Vec::new();
    assert_eq!(Command::Verack.net_encode(&mut enc), 12);
    assert_eq!(enc, [0x76, 0x65, 0x72, 0x61, 0x63, 0x6B, 0, 0, 0, 0, 0, 0]);
}

#[test]
fn command_unknown_is_invalid_data() {
    let field = b"bogus\0\0\0\0\0\0\0".to_vec();
    assert_eq!(field.len(), 12);
    let res = Command::net_decode(&mut ByteReader::new(field));
    assert_eq!(res, Err(Error::InvalidData));
}

#[test]
fn command_padding_after_zero_ignored() {
    let field = b"verack\0x\0\0\0\0".to_vec();
    let res = Command::net_decode(&mut ByteReader::new(field));
    assert_eq!(res, Ok(Command::Verack));
}

#[test]
fn port_big_endian() {
    let mut enc: Vec<u8> = Vec::new();
    Port(8333).net_encode(&mut enc);
    assert_eq!(enc, [0x20, 0x8D]);

    let dec = Port::net_decode(&mut ByteReader::new(vec![0x20, 0x8D])).unwrap();
    assert_eq!(dec, Port(8333));
}

#[test]
fn ipv4_mapped_form() {
    let mut enc: Vec<u8> = Vec::new();
    Ipv4Address::new(10, 0, 0, 1).net_encode(&mut enc);
    assert_eq!(enc, [0, 0, 0, 0, 0, 0, 0, 0, 0, 0, 0xFF, 0xFF, 10, 0, 0, 1]);

    let dec = Ipv4Address::net_decode(&mut ByteReader::new(enc)).unwrap();
    assert_eq!(dec, Ipv4Address::new(10, 0, 0, 1));
}

#[test]
fn ipv4_unmapped_rejected() {
    let raw = vec![0x20, 0x01, 0, 0, 0, 0, 0, 0, 0, 0, 0, 0, 0, 0, 0, 1];
    let res = Ipv4Address::net_decode(&mut ByteReader::new(raw));
    assert_eq!(res, Err(Error::InvalidData));
}

#[test]
fn timestamp_exact_bytes() {
    let mut enc: Vec<u8> = Vec::new();
    Timestamp(0x0102_0304).net_encode(&mut enc);
    assert_eq!(enc, [0x04, 0x03, 0x02, 0x01, 0, 0, 0, 0]);
}

#[test]
fn services_word_decode() {
    let mut r = ByteReader::new(vec![0x09, 0, 0, 0, 0, 0, 0, 0]);
    let list = ServicesList::net_decode(&mut r).unwrap();
    assert_eq!(list.get_flags(), &vec![Services::Network, Services::Witness]);
}

#[test]
fn varstring_round_trip() {
    let s = b"/bittune:0.1.0/".to_vec();
    let mut enc: Vec<u8> = Vec::new();
    let n = s.net_encode(&mut enc);
    assert_eq!(n, 1 + s.len());
    assert_eq!(enc[0], s.len() as u8);
    let dec = <Vec<u8>>::net_decode(&mut ByteReader::new(enc)).unwrap();
    assert_eq!(dec, s);
}

#[test]
fn netaddr_round_trip() {
    let addr = NetAddr::new(
        services(&[Services::Network, Services::Witness]),
        Ipv4Address::new(127, 0, 0, 1),
        Port(18333),
    );
    let mut enc: Vec<u8> = Vec::new();
    assert_eq!(addr.net_encode(&mut enc), 26);
    let dec = NetAddr::net_decode(&mut ByteReader::new(enc)).unwrap();
    assert_eq!(dec, addr);
}

#[test]
fn verack_payload_is_empty() {
    let mut enc: Vec<u8> = Vec::new();
    assert_eq!(VerackMessage::new().net_encode(&mut enc), 0);
    assert_eq!(enc.len(), 0);

    let mut r = ByteReader::new(Vec::new());
    let dec = VerackMessage::net_decode(&mut r).unwrap();
    assert_eq!(dec, VerackMessage::default());
    assert_eq!(r.position(), 0);
}

#[test]
fn version_payload_round_trip() {
    let msg = sample_version();
    let mut enc: Vec<u8> = Vec::new();
    let n = msg.net_encode(&mut enc);
    assert_eq!(n, enc.len());
    let dec = VersionMessage::net_decode(&mut ByteReader::new(enc)).unwrap();
    assert_eq!(dec, msg);
}

#[test]
fn message_version_round_trip() {
    let payload = MessagePayload::from(sample_version());
    let command = payload.command();
    assert_eq!(command, Command::Version);
    let mut msg = Message::new(payload, Magic::Main, command);
    msg.set_checksum([0xAA, 0xBB, 0xCC, 0xDD]);
    let mut enc: Vec<u8> = Vec::new();
    let n = msg.net_encode(&mut enc);
    assert_eq!(n, enc.len());
    let dec = Message::net_decode(&mut ByteReader::new(enc)).unwrap();
    assert_eq!(dec, msg);
}

#[test]
fn message_verack_consumes_no_payload_bytes() {
    let payload = MessagePayload::from(VerackMessage::new());
    let command = payload.command();
    let msg = Message::new(payload, Magic::Main, command);
    let mut enc: Vec<u8> = Vec::new();
    assert_eq!(msg.net_encode(&mut enc), 24);
    // Trailing bytes after the header must be left unread.
    enc.push(0x99);
    enc.push(0x99);
    let mut r = ByteReader::new(enc);
    let dec = Message::net_decode(&mut r).unwrap();
    assert_eq!(dec, msg);
    assert_eq!(r.position(), 24);
}

#[test]
fn message_unsupported_command() {
    let header = MessageHeader::new(Magic::Main, Command::Ping, 0, [0, 0, 0, 0]);
    let mut enc: Vec<u8> = Vec::new();
    header.net_encode(&mut enc);
    let res = Message::net_decode(&mut ByteReader::new(enc));
    assert_eq!(res, Err(Error::UnsupportedCommand));
}

#[test]
fn message_length_matches_payload() {
    let payload = MessagePayload::from(sample_version());
    let mut payload_bytes: Vec<u8> = Vec::new();
    let payload_len = payload.net_encode(&mut payload_bytes);
    let msg = Message::new(payload, Magic::Main, Command::Version);
    assert_eq!(msg.header.length as usize, payload_len);
}
