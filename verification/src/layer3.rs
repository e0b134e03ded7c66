//! What an Ethernet frame carries: an IPv4 packet, an ARP packet, or bytes
//! that are not looked into.

use crate::error::{encode_result, Error};
use crate::eth::ethtype;
use crate::readext::{accepted, cut_short, rejected, view_result, Parsed, ReadExt};
use crate::wire::push_bytes;
use vstd::prelude::*;

pub mod arp;
pub mod ipv4;

pub use arp::ArpPacket;
pub use ipv4::Ipv4Packet;

verus! {

/// The payload of an Ethernet frame.
#[derive(Clone, Debug, PartialEq)]
pub enum Layer3Packet {
    Ipv4(Ipv4Packet),
    Arp(ArpPacket),
    /// Bytes that are carried as they are.
    Unknown(Vec<u8>),
}

/// The model of a payload.
pub enum Layer3View {
    Ipv4(ipv4::Ipv4PacketView),
    Arp(arp::ArpPacketView),
    Unknown(Seq<u8>),
}

impl View for Layer3Packet {
    type V = Layer3View;

    open spec fn view(&self) -> Layer3View {
        match self {
            Layer3Packet::Ipv4(p) => Layer3View::Ipv4(p@),
            Layer3Packet::Arp(p) => Layer3View::Arp(p@),
            Layer3Packet::Unknown(bytes) => Layer3View::Unknown(bytes@),
        }
    }
}

/// The outcome `p` of the IPv4 decoder, as a payload.
pub open spec fn as_ipv4_payload(p: Parsed<ipv4::Ipv4PacketView>) -> Parsed<Layer3View> {
    Parsed {
        value: match p.value {
            Ok(packet) => Ok(Layer3View::Ipv4(packet)),
            Err(e) => Err(e),
        },
        used: p.used,
    }
}

/// The outcome `p` of the ARP decoder, as a payload.
pub open spec fn as_arp_payload(p: Parsed<arp::ArpPacketView>) -> Parsed<Layer3View> {
    Parsed {
        value: match p.value {
            Ok(packet) => Ok(Layer3View::Arp(packet)),
            Err(e) => Err(e),
        },
        used: p.used,
    }
}

/// What decoding the payload of a frame with the type field `ethtype` from `s`
/// gives. A type below 1536 is the length of a payload that is carried as it
/// is; of the protocols only IPv4 and ARP are decoded.
pub open spec fn layer3_parse(ethtype: u16, s: Seq<u8>) -> Parsed<Layer3View> {
    if ethtype < ethtype::FIRST_PROTOCOL {
        if s.len() < ethtype {
            cut_short(s)
        } else {
            accepted(Layer3View::Unknown(s.take(ethtype as int)), ethtype as nat)
        }
    } else if ethtype == ethtype::IPV4 {
        as_ipv4_payload(ipv4::ipv4_parse(s))
    } else if ethtype == ethtype::ARP {
        as_arp_payload(arp::arp_parse(s))
    } else {
        rejected(Error::UnsupportedEthertype(ethtype), 0)
    }
}

/// The field of `p` that cannot be encoded, if there is one.
pub open spec fn layer3_fault(p: Layer3View) -> Option<Error> {
    match p {
        Layer3View::Ipv4(packet) => ipv4::ipv4_fault(packet),
        Layer3View::Arp(_) => None,
        Layer3View::Unknown(_) => None,
    }
}

/// What the encoder writes for `p`: all of it, or what precedes the field
/// that cannot be encoded.
pub open spec fn layer3_written(p: Layer3View) -> Seq<u8> {
    match p {
        Layer3View::Ipv4(packet) => ipv4::ipv4_written(packet),
        Layer3View::Arp(packet) => arp::arp_bytes(packet),
        Layer3View::Unknown(bytes) => bytes,
    }
}

/// The payload `p` is what a frame with the type field `ethtype` carries, and
/// it can be encoded: below 1536 the type is the number of bytes carried as
/// they are, `IPV4` goes with an IPv4 packet and `ARP` with an ARP packet.
pub open spec fn payload_fits(ethtype: u16, p: Layer3View) -> bool {
    match p {
        Layer3View::Unknown(bytes) => ethtype < ethtype::FIRST_PROTOCOL && bytes.len() == ethtype,
        Layer3View::Ipv4(packet) => ethtype == ethtype::IPV4 && packet.wf(),
        Layer3View::Arp(packet) => ethtype == ethtype::ARP && packet.wf(),
    }
}

/// Decoding, under the type field that goes with it, what the encoder wrote
/// for a payload gives the payload back, whatever follows it in the stream,
/// and consumes exactly what was written.
pub proof fn lemma_layer3_round_trip(ethtype: u16, p: Layer3View, rest: Seq<u8>)
    requires
        payload_fits(ethtype, p),
    ensures
        layer3_fault(p) is None,
        layer3_parse(ethtype, layer3_written(p) + rest) == accepted(p, layer3_written(p).len()),
{
    match p {
        Layer3View::Unknown(bytes) => {
            assert((bytes + rest).take(ethtype as int) =~= bytes);
        },
        Layer3View::Ipv4(packet) => {
            ipv4::lemma_ipv4_view_round_trip(packet, rest);
        },
        Layer3View::Arp(packet) => {
            arp::lemma_arp_view_round_trip(packet, rest);
        },
    }
}

/// A type field below 1536 is a length: that many bytes are consumed and
/// carried as they are.
pub proof fn lemma_length_field(ethtype: u16, s: Seq<u8>)
    requires
        ethtype < 1536,
        s.len() >= ethtype,
    ensures
        layer3_parse(ethtype, s) == accepted(
            Layer3View::Unknown(s.take(ethtype as int)),
            ethtype as nat,
        ),
{
}

impl Layer3Packet {
    /// Decodes from the front of `reader` the payload of a frame whose type
    /// field is `ethtype`.
    pub fn from_reader<R: ReadExt>(ethtype: u16, reader: &mut R) -> (r: Result<Self, Error>)
        ensures
            view_result(r) == layer3_parse(ethtype, old(reader).remaining()).value,
            final(reader).remaining() =~= old(reader).remaining().skip(
                layer3_parse(ethtype, old(reader).remaining()).used as int,
            ),
    {
        if ethtype == 0 {
            let empty: Vec<u8> = Vec::new();
            assert(empty@ =~= old(reader).remaining().take(0));
            Ok(Layer3Packet::Unknown(empty))
        } else if ethtype < ethtype::FIRST_PROTOCOL {
            let payload = reader.read_exact(ethtype as usize)?;
            Ok(Layer3Packet::Unknown(payload))
        } else if ethtype == ethtype::IPV4 {
            Ok(Layer3Packet::Ipv4(Ipv4Packet::from_reader(reader)?))
        } else if ethtype == ethtype::ARP {
            Ok(Layer3Packet::Arp(ArpPacket::from_reader(reader)?))
        } else {
            Err(Error::UnsupportedEthertype(ethtype))
        }
    }

    /// Encodes the payload and appends its bytes to `writer`.
    pub fn onto_writer(&self, writer: &mut Vec<u8>) -> (r: Result<(), Error>)
        ensures
            r == encode_result(layer3_fault(self@)),
            final(writer)@ == old(writer)@ + layer3_written(self@),
    {
        match self {
            Layer3Packet::Ipv4(packet) => packet.onto_writer(writer),
            Layer3Packet::Arp(packet) => packet.onto_writer(writer),
            Layer3Packet::Unknown(bytes) => {
                push_bytes(writer, bytes.as_slice());
                Ok(())
            },
        }
    }
}

} // verus!
