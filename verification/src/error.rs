//! What a decoder or an encoder reports when it gives up.

use vstd::prelude::*;

verus! {

/// What the stream ran out of.
#[derive(Clone, Copy, Debug, PartialEq, Eq, Structural)]
pub enum Missing {
    /// A field of fixed size.
    Field,
    /// The data that follows an IPv4 header.
    Payload,
}

/// The fixed field of an ARP packet that holds an unsupported value.
#[derive(Clone, Copy, Debug, PartialEq, Eq, Structural)]
pub enum ArpFault {
    /// The hardware type is not Ethernet.
    HardwareType(u16),
    /// The protocol type is not IPv4.
    ProtocolType(u16),
    /// The hardware address length is not 6.
    HardwareLength(u8),
    /// The protocol address length is not 4.
    ProtocolLength(u8),
    /// The operation is neither request nor reply.
    Operation(u16),
}

/// The rule that an IPv4 header breaks.
#[derive(Clone, Copy, Debug, PartialEq, Eq, Structural)]
pub enum Ipv4Fault {
    /// The version nibble is not 4.
    Version(u8),
    /// The header length nibble is 1, 2, 3 or 4.
    HeaderLength(u8),
    /// The total length is smaller than the header.
    TotalLength(u16),
    /// The flags and fragment offset are not "don't fragment, offset zero".
    Fragmented(u16),
    /// The header carries options; the value is its length in bytes.
    Options(u8),
    /// The header checksum does not validate.
    Checksum,
}

/// The value that an encoder cannot put on the wire.
#[derive(Clone, Copy, Debug, PartialEq, Eq, Structural)]
pub enum FieldFault {
    /// An explicit congestion notification above 3.
    Ecn(u8),
    /// A payload too long for the 16-bit total length.
    PayloadLength(usize),
}

/// Why a decode or an encode failed.
#[derive(Clone, Copy, Debug, PartialEq, Eq, Structural)]
pub enum Error {
    /// The stream ended before what was asked of it was read.
    Truncated(Missing),
    /// The type field of a frame names a protocol that is not handled.
    UnsupportedEthertype(u16),
    /// An ARP packet with an unsupported fixed field or operation.
    MalformedArp(ArpFault),
    /// An IPv4 header that is invalid or uses an unsupported feature.
    MalformedIpv4(Ipv4Fault),
    /// A value out of range was handed to an encoder.
    InvalidField(FieldFault),
}

/// What an encoder returns for the fault `fault`.
pub open spec fn encode_result(fault: Option<Error>) -> Result<(), Error> {
    match fault {
        None => Ok(()),
        Some(e) => Err(e),
    }
}

} // verus!
