use bittune::encode::{Encode, Decode, ByteReader};
use bittune::varint::VariableInteger;
use bittune::header::{Magic, Command, MessageHeader};
use bittune::network::{Services, ServicesList};

#[test]
fn varint_test() {
    let ints: [u64; 9] = [
        0x01,
        0xFC,
        0xFD,
        0x1000,
        0xFFFF,
        0x10000,
        0x55555,
        0xFFFF_FFFF,
        0x1000_0000_0000,
    ];
    let lens: [usize; 9] = [1, 1, 3, 3, 3, 5, 5, 5, 9];

    for i in 0..ints.len() {
        let mut enc: Vec<u8> = Vec::new();
        assert_eq!(VariableInteger::from(ints[i]).net_encode(&mut enc), lens[i]);
        let mut r = ByteReader::new(enc);
        assert_eq!(VariableInteger::net_decode(&mut r).unwrap(), VariableInteger::from(ints[i]))
    }
}

#[test]
fn network_magic() {
    let mut main: Vec<u8> = Vec::new();
    let mut test: Vec<u8> = Vec::new();

    Magic::Main.net_encode(&mut main);
    Magic::Test.net_encode(&mut test);

    assert_eq!(main, [0xF9, 0xBE, 0xB4, 0xD9]);
    assert_eq!(test, [0xFA, 0xBF, 0xB5, 0xDA]);
}

#[test]
fn service_flags() {
    let mut flags = ServicesList::new();
    flags.add_flag(Services::Network);

    let mut encoded = Vec::new();
    flags.net_encode(&mut encoded);

    assert_eq!(encoded, &[0x01, 0x00, 0x00, 0x00, 0x00, 0x00, 0x00, 0x00])
}

#[test]
fn integer_le() {
    let int: u8 = 0xFF;
    let mut enc: Vec<u8> = Vec::new();
    int.net_encode(&mut enc);
    let dec = u8::net_decode(&mut ByteReader::new(enc)).expect("Failed to decode");
    assert_eq!(int, dec);

    let int: u16 = 0xFFFF;
    let mut enc: Vec<u8> = Vec::new();
    int.net_encode(&mut enc);
    let dec = u16::net_decode(&mut ByteReader::new(enc)).expect("Failed to decode");
    assert_eq!(int, dec);

    let int: u32 = 0xFFFF_FFFF;
    let mut enc: Vec<u8> = Vec::new();
    int.net_encode(&mut enc);
    let dec = u32::net_decode(&mut ByteReader::new(enc)).expect("Failed to decode");
    assert_eq!(int, dec);

    let int: u64 = 0xFFFF_FFFF_FFFF_FFFF;
    let mut enc: Vec<u8> = Vec::new();
    int.net_encode(&mut enc);
    let dec = u64::net_decode(&mut ByteReader::new(enc)).expect("Failed to decode");
    assert_eq!(int, dec);
}

#[test]
fn header_decode() {
    let header = MessageHeader::new(Magic::Main, Command::Verack, 00, [0x5D, 0xF6, 0xE0, 0xE2]);
    let mut enc: Vec<u8> = Vec::new();
    header.net_encode(&mut enc);
    let dec: MessageHeader =
        MessageHeader::net_decode(&mut ByteReader::new(enc)).expect("Failed to decode");
    assert_eq!(header, dec);
}
