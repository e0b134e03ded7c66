//! The Address Resolution Protocol for IPv4 over Ethernet.

use crate::addr::Ipv4Addr;
use crate::error::{ArpFault, Error};
use crate::eth::ethtype;
use crate::eth::Mac6;
use crate::readext::{accepted, cut_short, rejected, view_result, Parsed, ReadExt};
use crate::wire::{
    be16_at, be16_bytes, be32_at, be32_bytes, lemma_be16_of_bytes, lemma_be32_of_bytes,
    push_be_u16, push_be_u32, push_bytes,
};
use vstd::prelude::*;
use vstd::std_specs::convert::TryFromSpecImpl;

verus! {

/// The hardware type of Ethernet.
pub const HW_TYPE_ETHERNET: u16 = 1;

/// The length of a hardware address, as the packet states it.
pub const MAC6_SIZE_BYTES: u8 = 6;

/// The length of an IPv4 address, as the packet states it.
pub const IPV4_ADDR_SIZE_BYTES: u8 = 4;

/// The length of an ARP packet on the wire.
pub const ARP_PACKET_LEN: usize = 28;

/// The kind of an ARP packet: request or reply.
#[derive(Copy, Clone, PartialEq, Eq, Debug, Structural)]
pub enum ArpOperation {
    Request,
    Reply,
}

/// The operation that the code `code` stands for, if any.
pub open spec fn operation_of(code: u16) -> Option<ArpOperation> {
    if code == 1 {
        Some(ArpOperation::Request)
    } else if code == 2 {
        Some(ArpOperation::Reply)
    } else {
        None
    }
}

impl ArpOperation {
    /// The code of the operation on the wire.
    pub open spec fn code(self) -> u16 {
        match self {
            ArpOperation::Request => 1,
            ArpOperation::Reply => 2,
        }
    }

    /// The code of the operation on the wire.
    pub fn to_code(self) -> (code: u16)
        ensures
            code == self.code(),
            operation_of(code) == Some(self),
    {
        match self {
            ArpOperation::Request => 1,
            ArpOperation::Reply => 2,
        }
    }
}

impl TryFrom<u16> for ArpOperation {
    type Error = Error;

    fn try_from(value: u16) -> (r: Result<Self, Error>) {
        match value {
            1 => Ok(ArpOperation::Request),
            2 => Ok(ArpOperation::Reply),
            _ => Err(Error::MalformedArp(ArpFault::Operation(value))),
        }
    }
}

impl TryFromSpecImpl<u16> for ArpOperation {
    open spec fn obeys_try_from_spec() -> bool {
        true
    }

    open spec fn try_from_spec(value: u16) -> Result<Self, Error> {
        match operation_of(value) {
            Some(op) => Ok(op),
            None => Err(Error::MalformedArp(ArpFault::Operation(value))),
        }
    }
}

/// An ARP packet for IPv4 over Ethernet.
#[derive(Clone, PartialEq, Debug)]
pub struct ArpPacket {
    pub operation: ArpOperation,
    pub sender_hw_address: Mac6,
    pub sender_protocol_address: Ipv4Addr,
    pub target_hw_address: Mac6,
    pub target_protocol_address: Ipv4Addr,
}

/// The model of an ARP packet: hardware addresses as their six bytes,
/// protocol addresses as their 32-bit values.
pub struct ArpPacketView {
    pub operation: ArpOperation,
    pub sender_hw_address: Seq<u8>,
    pub sender_protocol_address: u32,
    pub target_hw_address: Seq<u8>,
    pub target_protocol_address: u32,
}

impl ArpPacketView {
    /// Both hardware addresses have six bytes.
    pub open spec fn wf(self) -> bool {
        &&& self.sender_hw_address.len() == 6
        &&& self.target_hw_address.len() == 6
    }
}

impl View for ArpPacket {
    type V = ArpPacketView;

    open spec fn view(&self) -> ArpPacketView {
        ArpPacketView {
            operation: self.operation,
            sender_hw_address: self.sender_hw_address@,
            sender_protocol_address: self.sender_protocol_address.bits(),
            target_hw_address: self.target_hw_address@,
            target_protocol_address: self.target_protocol_address.bits(),
        }
    }
}

/// The 28 bytes of the packet `p` on the wire.
pub open spec fn arp_bytes(p: ArpPacketView) -> Seq<u8> {
    be16_bytes(HW_TYPE_ETHERNET) + be16_bytes(ethtype::IPV4) + seq![
        MAC6_SIZE_BYTES,
        IPV4_ADDR_SIZE_BYTES,
    ] + be16_bytes(p.operation.code()) + p.sender_hw_address + be32_bytes(
        p.sender_protocol_address,
    ) + p.target_hw_address + be32_bytes(p.target_protocol_address)
}

/// What decoding an ARP packet from `s` gives. The four fixed fields are read
/// and then checked in the order hardware type, protocol type, hardware
/// length, protocol length; then the operation is read and checked; then the
/// four addresses are read.
pub open spec fn arp_parse(s: Seq<u8>) -> Parsed<ArpPacketView> {
    if s.len() < 6 {
        cut_short(s)
    } else if be16_at(s, 0) != HW_TYPE_ETHERNET {
        rejected(Error::MalformedArp(ArpFault::HardwareType(be16_at(s, 0))), 6)
    } else if be16_at(s, 2) != ethtype::IPV4 {
        rejected(Error::MalformedArp(ArpFault::ProtocolType(be16_at(s, 2))), 6)
    } else if s[4] != MAC6_SIZE_BYTES {
        rejected(Error::MalformedArp(ArpFault::HardwareLength(s[4])), 6)
    } else if s[5] != IPV4_ADDR_SIZE_BYTES {
        rejected(Error::MalformedArp(ArpFault::ProtocolLength(s[5])), 6)
    } else if s.len() < 8 {
        cut_short(s)
    } else if operation_of(be16_at(s, 6)) is None {
        rejected(Error::MalformedArp(ArpFault::Operation(be16_at(s, 6))), 8)
    } else if s.len() < 28 {
        cut_short(s)
    } else {
        accepted(
            ArpPacketView {
                operation: operation_of(be16_at(s, 6))->Some_0,
                sender_hw_address: s.subrange(8, 14),
                sender_protocol_address: be32_at(s, 14),
                target_hw_address: s.subrange(18, 24),
                target_protocol_address: be32_at(s, 24),
            },
            28,
        )
    }
}

/// Decoding what the encoder wrote gives the packet back, whatever follows it
/// in the stream, and consumes the 28 bytes of the packet.
pub proof fn lemma_arp_round_trip(p: ArpPacket, rest: Seq<u8>)
    ensures
        arp_parse(arp_bytes(p@)) == accepted(p@, 28),
        arp_parse(arp_bytes(p@) + rest) == accepted(p@, 28),
{
    p.sender_hw_address.lemma_view();
    p.target_hw_address.lemma_view();
    lemma_arp_view_round_trip(p@, rest);
    lemma_arp_view_round_trip(p@, Seq::empty());
    assert(arp_bytes(p@) + Seq::<u8>::empty() =~= arp_bytes(p@));
}

/// Decoding the bytes of a packet model with six-byte hardware addresses
/// gives the model back.
pub proof fn lemma_arp_view_round_trip(p: ArpPacketView, rest: Seq<u8>)
    requires
        p.wf(),
    ensures
        arp_bytes(p).len() == 28,
        arp_parse(arp_bytes(p) + rest) == accepted(p, 28),
{
    let s = arp_bytes(p) + rest;
    let code = p.operation.code();
    lemma_be16_of_bytes(code);
    lemma_be32_of_bytes(p.sender_protocol_address);
    lemma_be32_of_bytes(p.target_protocol_address);
    assert(be16_at(s, 0) == HW_TYPE_ETHERNET);
    assert(be16_at(s, 2) == ethtype::IPV4);
    assert(s[4] == MAC6_SIZE_BYTES);
    assert(s[5] == IPV4_ADDR_SIZE_BYTES);
    assert(s[6] == be16_bytes(code)[0] && s[7] == be16_bytes(code)[1]);
    assert(be16_at(s, 6) == code);
    assert(s.subrange(8, 14) =~= p.sender_hw_address);
    assert(s.subrange(18, 24) =~= p.target_hw_address);
    let sender = be32_bytes(p.sender_protocol_address);
    assert(s[14] == sender[0] && s[15] == sender[1] && s[16] == sender[2] && s[17] == sender[3]);
    let target = be32_bytes(p.target_protocol_address);
    assert(s[24] == target[0] && s[25] == target[1] && s[26] == target[2] && s[27] == target[3]);
}

/// A packet that states a hardware address length other than 6, or a protocol
/// address length other than 4, is rejected as malformed once its six fixed
/// bytes have been read.
pub proof fn lemma_arp_lengths_rejected(s: Seq<u8>)
    requires
        s.len() >= 6,
        s[4] != 6 || s[5] != 4,
    ensures
        arp_parse(s).value is Err,
        arp_parse(s).value->Err_0 is MalformedArp,
        arp_parse(s).used == 6,
{
}

impl ArpPacket {
    /// Decodes an ARP packet from the front of `reader`.
    pub fn from_reader<R: ReadExt>(reader: &mut R) -> (r: Result<Self, Error>)
        ensures
            view_result(r) == arp_parse(old(reader).remaining()).value,
            final(reader).remaining() =~= old(reader).remaining().skip(
                arp_parse(old(reader).remaining()).used as int,
            ),
    {
        let ghost s = reader.remaining();
        let hw_type = reader.read_be_u16()?;
        let protocol_type = reader.read_be_u16()?;
        let hw_length = reader.read_u8()?;
        let protocol_length = reader.read_u8()?;

        if hw_type != HW_TYPE_ETHERNET {
            return Err(Error::MalformedArp(ArpFault::HardwareType(hw_type)));
        } else if protocol_type != ethtype::IPV4 {
            return Err(Error::MalformedArp(ArpFault::ProtocolType(protocol_type)));
        } else if hw_length != MAC6_SIZE_BYTES {
            return Err(Error::MalformedArp(ArpFault::HardwareLength(hw_length)));
        } else if protocol_length != IPV4_ADDR_SIZE_BYTES {
            return Err(Error::MalformedArp(ArpFault::ProtocolLength(protocol_length)));
        }
        let code = reader.read_be_u16()?;
        let operation = ArpOperation::try_from(code)?;
        let sender_hw_address = Mac6::from_reader(reader)?;
        let sender_protocol_address = Ipv4Addr::from_bits(reader.read_be_u32()?);
        let target_hw_address = Mac6::from_reader(reader)?;
        let target_protocol_address = Ipv4Addr::from_bits(reader.read_be_u32()?);

        let packet = ArpPacket {
            operation,
            sender_hw_address,
            sender_protocol_address,
            target_hw_address,
            target_protocol_address,
        };
        proof {
            assert(packet@.sender_hw_address =~= s.subrange(8, 14));
            assert(packet@.target_hw_address =~= s.subrange(18, 24));
        }
        Ok(packet)
    }

    /// Encodes the packet and appends its 28 bytes to `writer`.
    pub fn onto_writer(&self, writer: &mut Vec<u8>) -> (r: Result<(), Error>)
        ensures
            r == Ok::<(), Error>(()),
            final(writer)@ == old(writer)@ + arp_bytes(self@),
    {
        push_be_u16(writer, HW_TYPE_ETHERNET);
        push_be_u16(writer, ethtype::IPV4);
        writer.push(MAC6_SIZE_BYTES);
        writer.push(IPV4_ADDR_SIZE_BYTES);
        push_be_u16(writer, self.operation.to_code());
        push_bytes(writer, self.sender_hw_address.as_bytes());
        push_be_u32(writer, self.sender_protocol_address.to_bits());
        push_bytes(writer, self.target_hw_address.as_bytes());
        push_be_u32(writer, self.target_protocol_address.to_bits());
        assert(writer@ =~= old(writer)@ + arp_bytes(self@));
        Ok(())
    }
}

} // verus!
