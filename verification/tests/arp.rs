use netframe::addr::Ipv4Addr;
use netframe::error::{ArpFault, Error, Missing};
use netframe::eth::Mac6;
use netframe::layer3::arp::{ArpOperation, ArpPacket};
use netframe::readext::SliceReader;

const REQUEST: [u8; 28] = [
    0x00, 0x01, 0x08, 0x00, 0x06, 0x04, 0x00, 0x01, 0x36, 0x1f, 0xb8, 0xa8, 0x1b, 0xc5, 0xc0, 0xa8,
    0x00, 0x05, 0x00, 0x00, 0x00, 0x00, 0x00, 0x00, 0xc0, 0xa8, 0x00, 0x04,
];

fn decode(raw: &[u8]) -> (Result<ArpPacket, Error>, usize) {
    let mut reader = SliceReader::new(raw);
    let r = ArpPacket::from_reader(&mut reader);
    (r, reader.position())
}

#[test]
fn arp_read() {
    let raw = [
        0x00, 0x01, 0x08, 0x00, 0x06, 0x04, 0x00, 0x01, 0x36, 0x1f, 0xb8, 0xa8, 0x1b, 0xc5, 0xc0,
        0xa8, 0x00, 0x05, 0x00, 0x00, 0x00, 0x00, 0x00, 0x00, 0xc0, 0xa8, 0x00, 0x04,
    ];
    let mut reader = SliceReader::new(raw.as_slice());
    let arp = ArpPacket::from_reader(&mut reader).unwrap();
    assert_eq!(arp.sender_hw_address.to_string(), "36:1F:B8:A8:1B:C5");
    assert_eq!(arp.sender_protocol_address.to_string(), "192.168.0.5");
    assert_eq!(arp.target_hw_address.to_string(), "00:00:00:00:00:00");
    assert_eq!(arp.target_protocol_address.to_string(), "192.168.0.4");
    assert_eq!(arp.operation, ArpOperation::Request);
}

#[test]
fn arp_write() {
    let arp = ArpPacket {
        operation: ArpOperation::Request,
        sender_hw_address: [0x31, 0x41, 0x59, 0x26, 0x53, 0x58].into(),
        sender_protocol_address: Ipv4Addr::new(3, 1, 4, 1),
        target_hw_address: [0x27, 0x18, 0x28, 0x18, 0x28, 0x45].into(),
        target_protocol_address: Ipv4Addr::new(2, 7, 1, 8),
    };
    let mut buffer = Vec::new();
    arp.onto_writer(&mut buffer).unwrap();

    let mut reader = SliceReader::new(buffer.as_slice());
    assert_eq!(arp, ArpPacket::from_reader(&mut reader).unwrap());
}

#[test]
fn arp_written_bytes_are_exact() {
    let arp = ArpPacket {
        operation: ArpOperation::Reply,
        sender_hw_address: [0x31, 0x41, 0x59, 0x26, 0x53, 0x58].into(),
        sender_protocol_address: Ipv4Addr::new(3, 1, 4, 1),
        target_hw_address: [0x27, 0x18, 0x28, 0x18, 0x28, 0x45].into(),
        target_protocol_address: Ipv4Addr::new(2, 7, 1, 8),
    };
    let mut buffer = vec![0xee];
    assert_eq!(arp.onto_writer(&mut buffer), Ok(()));
    assert_eq!(
        buffer,
        vec![
            0xee, 0x00, 0x01, 0x08, 0x00, 0x06, 0x04, 0x00, 0x02, 0x31, 0x41, 0x59, 0x26, 0x53,
            0x58, 3, 1, 4, 1, 0x27, 0x18, 0x28, 0x18, 0x28, 0x45, 2, 7, 1, 8,
        ]
    );
}

#[test]
fn arp_encode_of_decoded_is_the_input() {
    let (r, used) = decode(&REQUEST);
    assert_eq!(used, 28);
    let mut out = Vec::new();
    r.unwrap().onto_writer(&mut out).unwrap();
    assert_eq!(out.as_slice(), &REQUEST);
}

#[test]
fn arp_decoder_stops_behind_the_packet() {
    let mut raw = REQUEST.to_vec();
    raw.extend_from_slice(&[1, 2, 3]);
    let (r, used) = decode(&raw);
    assert!(r.is_ok());
    assert_eq!(used, 28);
}

#[test]
fn arp_reply_is_read() {
    let mut raw = REQUEST;
    raw[7] = 2;
    assert_eq!(decode(&raw).0.unwrap().operation, ArpOperation::Reply);
}

#[test]
fn arp_wrong_hardware_type() {
    let mut raw = REQUEST;
    raw[1] = 6;
    assert_eq!(
        decode(&raw),
        (Err(Error::MalformedArp(ArpFault::HardwareType(6))), 6)
    );
}

#[test]
fn arp_wrong_protocol_type() {
    let mut raw = REQUEST;
    raw[2] = 0x86;
    raw[3] = 0xdd;
    assert_eq!(
        decode(&raw),
        (Err(Error::MalformedArp(ArpFault::ProtocolType(0x86dd))), 6)
    );
}

#[test]
fn arp_wrong_hardware_length() {
    let mut raw = REQUEST;
    raw[4] = 8;
    assert_eq!(
        decode(&raw),
        (Err(Error::MalformedArp(ArpFault::HardwareLength(8))), 6)
    );
}

#[test]
fn arp_wrong_protocol_length() {
    let mut raw = REQUEST;
    raw[5] = 16;
    assert_eq!(
        decode(&raw),
        (Err(Error::MalformedArp(ArpFault::ProtocolLength(16))), 6)
    );
}

#[test]
fn arp_fixed_fields_are_checked_in_order() {
    let mut raw = REQUEST;
    raw[1] = 2;
    raw[3] = 1;
    raw[4] = 5;
    raw[5] = 5;
    assert_eq!(
        decode(&raw).0,
        Err(Error::MalformedArp(ArpFault::HardwareType(2)))
    );
    raw[1] = 1;
    assert_eq!(
        decode(&raw).0,
        Err(Error::MalformedArp(ArpFault::ProtocolType(0x0801)))
    );
    raw[3] = 0;
    assert_eq!(
        decode(&raw).0,
        Err(Error::MalformedArp(ArpFault::HardwareLength(5)))
    );
    raw[4] = 6;
    assert_eq!(
        decode(&raw).0,
        Err(Error::MalformedArp(ArpFault::ProtocolLength(5)))
    );
}

#[test]
fn arp_unknown_operation() {
    let mut raw = REQUEST;
    raw[7] = 3;
    assert_eq!(
        decode(&raw),
        (Err(Error::MalformedArp(ArpFault::Operation(3))), 8)
    );
    raw[6] = 1;
    raw[7] = 1;
    assert_eq!(
        decode(&raw),
        (Err(Error::MalformedArp(ArpFault::Operation(0x0101))), 8)
    );
    raw[6] = 0;
    raw[7] = 0;
    assert_eq!(
        decode(&raw),
        (Err(Error::MalformedArp(ArpFault::Operation(0))), 8)
    );
}

#[test]
fn arp_cut_short() {
    for len in 0..28 {
        let (r, used) = decode(&REQUEST[..len]);
        assert_eq!(r, Err(Error::Truncated(Missing::Field)));
        assert_eq!(used, len);
    }
}

#[test]
fn arp_operation_codes() {
    assert_eq!(ArpOperation::try_from(1u16), Ok(ArpOperation::Request));
    assert_eq!(ArpOperation::try_from(2u16), Ok(ArpOperation::Reply));
    assert_eq!(
        ArpOperation::try_from(0u16),
        Err(Error::MalformedArp(ArpFault::Operation(0)))
    );
    assert_eq!(
        ArpOperation::try_from(3u16),
        Err(Error::MalformedArp(ArpFault::Operation(3)))
    );
    assert_eq!(ArpOperation::Request.to_code(), 1);
    assert_eq!(ArpOperation::Reply.to_code(), 2);
}

#[test]
fn arp_round_trip_of_both_operations() {
    for operation in [ArpOperation::Request, ArpOperation::Reply] {
        let arp = ArpPacket {
            operation,
            sender_hw_address: Mac6::from([0xff, 0, 0x80, 0x7f, 1, 0xfe]),
            sender_protocol_address: Ipv4Addr::from_bits(0xffff_ffff),
            target_hw_address: Mac6::from([0, 0, 0, 0, 0, 0]),
            target_protocol_address: Ipv4Addr::from_bits(0),
        };
        let mut out = Vec::new();
        arp.onto_writer(&mut out).unwrap();
        assert_eq!(decode(&out), (Ok(arp), 28));
    }
}
