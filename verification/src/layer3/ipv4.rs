//! The Internet Protocol, version 4, without options and without fragments.

use crate::addr::Ipv4Addr;
use crate::checksum::{
    header_checksum, internet_checksum, lemma_checksum_in_place, lemma_word_sum_positive,
};
use crate::error::{encode_result, Error, FieldFault, Ipv4Fault, Missing};
use crate::readext::{accepted, cut_short, rejected, view_result, Parsed, ReadExt};
use crate::wire::{
    be16_at, be16_bytes, be32_at, be32_bytes, lemma_be16_of_bytes, lemma_be32_of_bytes,
    lemma_bytes_of_be16, lemma_bytes_of_be32, push_be_u16, push_be_u32, push_bytes,
};
use vstd::prelude::*;

verus! {

/// The length in bytes of a header without options.
pub const MIN_HEADER_LENGTH: u8 = 20;

/// The flags and fragment offset of the one form that is handled: "don't
/// fragment" set, offset zero.
pub const UNFRAGMENTED: u16 = 0x4000;

/// The first byte of every header that is written: version 4, five words.
pub const VERSION_AND_IHL: u8 = 0x45;

/// The longest payload whose total length still fits in 16 bits.
pub const MAX_PAYLOAD_LENGTH: usize = 65515;

/// A parsed Internet Protocol version 4 packet.
#[derive(Clone, Debug, PartialEq)]
pub struct Ipv4Packet {
    /// Differentiated services code point.
    pub dscp: u8,
    /// Explicit congestion notification.
    pub ecn: u8,
    pub identification: u16,
    /// Time to live.
    pub ttl: u8,
    pub protocol: u8,
    pub source: Ipv4Addr,
    pub destination: Ipv4Addr,
    pub data: Vec<u8>,
}

/// The model of an IPv4 packet: addresses as their 32-bit values, the payload
/// as a sequence of bytes.
pub struct Ipv4PacketView {
    pub dscp: u8,
    pub ecn: u8,
    pub identification: u16,
    pub ttl: u8,
    pub protocol: u8,
    pub source: u32,
    pub destination: u32,
    pub data: Seq<u8>,
}

impl View for Ipv4Packet {
    type V = Ipv4PacketView;

    open spec fn view(&self) -> Ipv4PacketView {
        Ipv4PacketView {
            dscp: self.dscp,
            ecn: self.ecn,
            identification: self.identification,
            ttl: self.ttl,
            protocol: self.protocol,
            source: self.source.bits(),
            destination: self.destination.bits(),
            data: self.data@,
        }
    }
}

impl Ipv4PacketView {
    /// The packet can be put on the wire and read back: the code point fits in
    /// six bits, the congestion notification in two, and the total length in
    /// sixteen.
    pub open spec fn wf(self) -> bool {
        &&& self.dscp <= 63
        &&& self.ecn <= 3
        &&& self.data.len() <= MAX_PAYLOAD_LENGTH
    }
}

/// The header length in bytes that the first byte of a header states. The
/// low nibble counts 32-bit words; zero stands for the minimum.
pub open spec fn header_length(first: u8) -> nat {
    if first % 16 == 0 {
        20
    } else {
        (4 * (first % 16)) as nat
    }
}

/// What decoding an IPv4 packet from `s` gives. Each field is checked as soon
/// as it has been read, so a rejected header leaves the bytes behind the
/// offending field unread; options are read before the header is rejected for
/// having them.
pub open spec fn ipv4_parse(s: Seq<u8>) -> Parsed<Ipv4PacketView> {
    if s.len() < 1 {
        cut_short(s)
    } else if s[0] / 16 != 4 {
        rejected(Error::MalformedIpv4(Ipv4Fault::Version(s[0] / 16)), 1)
    } else if 1 <= s[0] % 16 <= 4 {
        rejected(Error::MalformedIpv4(Ipv4Fault::HeaderLength(s[0] % 16)), 1)
    } else if s.len() < 4 {
        cut_short(s)
    } else if be16_at(s, 2) < header_length(s[0]) {
        rejected(Error::MalformedIpv4(Ipv4Fault::TotalLength(be16_at(s, 2))), 4)
    } else if s.len() < 8 {
        cut_short(s)
    } else if be16_at(s, 6) != UNFRAGMENTED {
        rejected(Error::MalformedIpv4(Ipv4Fault::Fragmented(be16_at(s, 6))), 8)
    } else if s.len() < 20 {
        cut_short(s)
    } else if header_length(s[0]) > 20 {
        if s.len() < header_length(s[0]) {
            cut_short(s)
        } else {
            rejected(
                Error::MalformedIpv4(Ipv4Fault::Options(header_length(s[0]) as u8)),
                header_length(s[0]),
            )
        }
    } else if internet_checksum(s.take(20)) != 0 {
        rejected(Error::MalformedIpv4(Ipv4Fault::Checksum), 20)
    } else if s.len() < be16_at(s, 2) {
        Parsed { value: Err(Error::Truncated(Missing::Payload)), used: s.len() }
    } else {
        accepted(
            Ipv4PacketView {
                dscp: s[1] / 4,
                ecn: s[1] % 4,
                identification: be16_at(s, 4),
                ttl: s[8],
                protocol: s[9],
                source: be32_at(s, 12),
                destination: be32_at(s, 16),
                data: s.subrange(20, be16_at(s, 2) as int),
            },
            be16_at(s, 2) as nat,
        )
    }
}

/// The first ten bytes of the header of `p`: everything before the checksum.
pub open spec fn ipv4_header_start(p: Ipv4PacketView) -> Seq<u8> {
    seq![VERSION_AND_IHL, ((p.dscp % 64) * 4 + p.ecn) as u8] + be16_bytes(
        (20 + p.data.len()) as u16,
    ) + be16_bytes(p.identification) + be16_bytes(UNFRAGMENTED) + seq![p.ttl, p.protocol]
}

/// The last eight bytes of the header of `p`: source, then destination.
pub open spec fn ipv4_addresses(p: Ipv4PacketView) -> Seq<u8> {
    be32_bytes(p.source) + be32_bytes(p.destination)
}

/// The header checksum of `p`: the Internet checksum of the header without
/// its checksum field.
pub open spec fn ipv4_header_checksum(p: Ipv4PacketView) -> u16 {
    internet_checksum(ipv4_header_start(p) + ipv4_addresses(p))
}

/// The 20 bytes of the header of `p`.
pub open spec fn ipv4_header(p: Ipv4PacketView) -> Seq<u8> {
    ipv4_header_start(p) + be16_bytes(ipv4_header_checksum(p)) + ipv4_addresses(p)
}

/// The bytes of the packet `p` on the wire.
pub open spec fn ipv4_bytes(p: Ipv4PacketView) -> Seq<u8> {
    ipv4_header(p) + p.data
}

/// The field of `p` that cannot be encoded, if there is one. The congestion
/// notification is looked at first.
pub open spec fn ipv4_fault(p: Ipv4PacketView) -> Option<Error> {
    if p.ecn > 3 {
        Some(Error::InvalidField(FieldFault::Ecn(p.ecn)))
    } else if p.data.len() > MAX_PAYLOAD_LENGTH {
        Some(Error::InvalidField(FieldFault::PayloadLength(p.data.len() as usize)))
    } else {
        None
    }
}

/// What the encoder writes for `p`: the whole packet, or what precedes the
/// field that cannot be encoded.
pub open spec fn ipv4_written(p: Ipv4PacketView) -> Seq<u8> {
    if p.ecn > 3 {
        seq![VERSION_AND_IHL]
    } else if p.data.len() > MAX_PAYLOAD_LENGTH {
        seq![VERSION_AND_IHL, ((p.dscp % 64) * 4 + p.ecn) as u8]
    } else {
        ipv4_bytes(p)
    }
}

/// The header of a packet is 20 bytes long and validates: with the checksum
/// field as the encoder fills it, the Internet checksum of the header is zero.
pub proof fn lemma_header_validates(p: Ipv4PacketView)
    ensures
        ipv4_header(p).len() == 20,
        internet_checksum(ipv4_header(p)) == 0,
{
    let start = ipv4_header_start(p);
    let addresses = ipv4_addresses(p);
    assert(start.len() == 10);
    assert((start + addresses)[0] == VERSION_AND_IHL);
    lemma_word_sum_positive(start + addresses);
    lemma_checksum_in_place(start, addresses);
}

/// Decoding what the encoder wrote for a packet gives the packet back,
/// whatever follows it in the stream, and consumes exactly the bytes of the
/// packet. So encoding the decoded packet gives the same bytes again.
pub proof fn lemma_ipv4_round_trip(p: Ipv4Packet, rest: Seq<u8>)
    requires
        p@.dscp <= 63,
        p@.ecn <= 3,
        p@.data.len() <= 65515,
    ensures
        ipv4_fault(p@) is None,
        ipv4_written(p@) == ipv4_bytes(p@),
        ipv4_parse(ipv4_bytes(p@)) == accepted(p@, (20 + p@.data.len()) as nat),
        ipv4_parse(ipv4_bytes(p@) + rest) == accepted(p@, (20 + p@.data.len()) as nat),
        ipv4_written(ipv4_parse(ipv4_bytes(p@)).value->Ok_0) == ipv4_bytes(p@),
{
    lemma_ipv4_view_round_trip(p@, rest);
    lemma_ipv4_view_round_trip(p@, Seq::empty());
    assert(ipv4_bytes(p@) + Seq::<u8>::empty() =~= ipv4_bytes(p@));
}

/// Decoding the bytes of a packet model that can be encoded gives the model
/// back.
pub proof fn lemma_ipv4_view_round_trip(p: Ipv4PacketView, rest: Seq<u8>)
    requires
        p.wf(),
    ensures
        ipv4_bytes(p).len() == 20 + p.data.len(),
        ipv4_parse(ipv4_bytes(p) + rest) == accepted(p, (20 + p.data.len()) as nat),
{
    let s = ipv4_bytes(p) + rest;
    let header = ipv4_header(p);
    let total = (20 + p.data.len()) as u16;
    lemma_header_validates(p);
    assert(s.take(20) =~= header);
    lemma_be16_of_bytes(total);
    lemma_be16_of_bytes(p.identification);
    lemma_be16_of_bytes(UNFRAGMENTED);
    lemma_be32_of_bytes(p.source);
    lemma_be32_of_bytes(p.destination);
    assert(s[0] == VERSION_AND_IHL);
    assert(s[1] == p.dscp * 4 + p.ecn);
    assert(s[2] == be16_bytes(total)[0] && s[3] == be16_bytes(total)[1]);
    assert(be16_at(s, 2) == total);
    assert(s[4] == be16_bytes(p.identification)[0] && s[5] == be16_bytes(p.identification)[1]);
    assert(s[6] == be16_bytes(UNFRAGMENTED)[0] && s[7] == be16_bytes(UNFRAGMENTED)[1]);
    assert(be16_at(s, 6) == UNFRAGMENTED);
    assert(s[8] == p.ttl);
    assert(s[9] == p.protocol);
    let source = be32_bytes(p.source);
    assert(s[12] == source[0] && s[13] == source[1] && s[14] == source[2] && s[15] == source[3]);
    let destination = be32_bytes(p.destination);
    assert(s[16] == destination[0] && s[17] == destination[1] && s[18] == destination[2]
        && s[19] == destination[3]);
    assert(s.subrange(20, total as int) =~= p.data);
}

/// A packet that was decoded had a header whose Internet checksum, over its
/// 20 bytes as they were received, is zero.
pub proof fn lemma_decoded_header_validates(s: Seq<u8>)
    requires
        ipv4_parse(s).value is Ok,
    ensures
        s.len() >= 20,
        internet_checksum(s.take(20)) == 0,
{
}

/// A header whose length nibble is 1, 2, 3 or 4 is rejected as malformed.
pub proof fn lemma_short_header_length_rejected(s: Seq<u8>)
    requires
        s.len() >= 1,
        1 <= s[0] % 16 <= 4,
    ensures
        ipv4_parse(s).value is Err,
        ipv4_parse(s).value->Err_0 is MalformedIpv4,
        ipv4_parse(s).used == 1,
{
}

/// A header that states a length above 20, and is there in full, is rejected
/// as malformed. Where nothing else is wrong with it the options are what it
/// is rejected for, and they have been read: exactly the header is consumed.
pub proof fn lemma_options_rejected(s: Seq<u8>)
    requires
        s.len() >= 1,
        header_length(s[0]) > 20,
        s.len() >= header_length(s[0]),
    ensures
        ipv4_parse(s).value is Err,
        ipv4_parse(s).value->Err_0 is MalformedIpv4,
        s[0] / 16 == 4 && be16_at(s, 2) >= header_length(s[0]) && be16_at(s, 6) == UNFRAGMENTED
            ==> ipv4_parse(s) == rejected::<Ipv4PacketView>(
            Error::MalformedIpv4(Ipv4Fault::Options(header_length(s[0]) as u8)),
            header_length(s[0]),
        ),
{
}

/// The demands on the first four bytes of `s` are met: version 4, a header
/// length the format allows, and a total length that covers the header.
spec fn lengths_accepted(s: Seq<u8>) -> bool {
    &&& s.len() >= 4
    &&& s[0] / 16 == 4
    &&& !(1 <= s[0] % 16 <= 4)
    &&& be16_at(s, 2) >= header_length(s[0])
}

/// The demands on the first twenty bytes of `s`, short of the checksum, are
/// met.
spec fn fields_accepted(s: Seq<u8>) -> bool {
    &&& lengths_accepted(s)
    &&& s.len() >= 20
    &&& be16_at(s, 6) == UNFRAGMENTED
}

/// The value and the position that a decoder stopped with are those that
/// decoding `s` gives.
spec fn stopped_as_parsed(e: Error, s: Seq<u8>, rest: Seq<u8>) -> bool {
    &&& ipv4_parse(s).value == Err::<Ipv4PacketView, Error>(e)
    &&& rest =~= s.skip(ipv4_parse(s).used as int)
}

/// Reads the first four bytes of a header into `header` and returns the
/// header length and the total length that they state.
fn read_lengths<R: ReadExt>(reader: &mut R, header: &mut Vec<u8>) -> (r: Result<(u8, u16), Error>)
    requires
        old(header)@.len() == 0,
    ensures
        match r {
            Ok((header_len, total_length)) => {
                &&& lengths_accepted(old(reader).remaining())
                &&& header_len == header_length(old(reader).remaining()[0])
                &&& total_length == be16_at(old(reader).remaining(), 2)
                &&& final(header)@ == old(reader).remaining().take(4)
                &&& final(reader).remaining() == old(reader).remaining().skip(4)
            },
            Err(e) => stopped_as_parsed(e, old(reader).remaining(), final(reader).remaining()),
        },
{
    let ghost s = reader.remaining();
    let first = reader.read_u8()?;
    header.push(first);
    let version = first / 16;
    let ihl = first % 16;
    if version != 4 {
        return Err(Error::MalformedIpv4(Ipv4Fault::Version(version)));
    }
    if 1 <= ihl && ihl < 5 {
        return Err(Error::MalformedIpv4(Ipv4Fault::HeaderLength(ihl)));
    }
    let header_len: u8 = if ihl == 0 {
        MIN_HEADER_LENGTH
    } else {
        4 * ihl
    };
    let second = reader.read_u8()?;
    header.push(second);
    let total_length = reader.read_be_u16()?;
    if total_length < header_len as u16 {
        return Err(Error::MalformedIpv4(Ipv4Fault::TotalLength(total_length)));
    }
    push_be_u16(header, total_length);
    proof {
        lemma_bytes_of_be16(s[2], s[3]);
        assert(header@ =~= s.take(4));
        assert(reader.remaining() =~= s.skip(4));
    }
    Ok((header_len, total_length))
}

/// The fields of a header between the total length and the end of the fixed
/// part.
struct FixedFields {
    identification: u16,
    ttl: u8,
    protocol: u8,
    source: u32,
    destination: u32,
}

/// Reads bytes 4 to 19 of a header into `header`. `s` is what the source held
/// before the header was begun.
fn read_fixed_fields<R: ReadExt>(
    reader: &mut R,
    header: &mut Vec<u8>,
    Ghost(s): Ghost<Seq<u8>>,
) -> (r: Result<FixedFields, Error>)
    requires
        lengths_accepted(s),
        old(header)@ == s.take(4),
        old(reader).remaining() == s.skip(4),
    ensures
        match r {
            Ok(f) => {
                &&& fields_accepted(s)
                &&& f.identification == be16_at(s, 4)
                &&& f.ttl == s[8]
                &&& f.protocol == s[9]
                &&& f.source == be32_at(s, 12)
                &&& f.destination == be32_at(s, 16)
                &&& final(header)@ == s.take(20)
                &&& final(reader).remaining() == s.skip(20)
            },
            Err(e) => stopped_as_parsed(e, s, final(reader).remaining()),
        },
{
    let identification = reader.read_be_u16()?;
    push_be_u16(header, identification);
    let flags_and_frag_offset = reader.read_be_u16()?;
    push_be_u16(header, flags_and_frag_offset);
    proof {
        lemma_bytes_of_be16(s[4], s[5]);
        lemma_bytes_of_be16(s[6], s[7]);
        assert(header@ =~= s.take(8));
        assert(reader.remaining() =~= s.skip(8));
    }
    if flags_and_frag_offset != UNFRAGMENTED {
        return Err(Error::MalformedIpv4(Ipv4Fault::Fragmented(flags_and_frag_offset)));
    }
    let ttl = reader.read_u8()?;
    header.push(ttl);
    let protocol = reader.read_u8()?;
    header.push(protocol);
    let header_checksum_field = reader.read_be_u16()?;
    push_be_u16(header, header_checksum_field);
    proof {
        lemma_bytes_of_be16(s[10], s[11]);
        assert(header@ =~= s.take(12));
        assert(reader.remaining() =~= s.skip(12));
    }
    let source = reader.read_be_u32()?;
    push_be_u32(header, source);
    let destination = reader.read_be_u32()?;
    push_be_u32(header, destination);
    proof {
        lemma_bytes_of_be32(s[12], s[13], s[14], s[15]);
        lemma_bytes_of_be32(s[16], s[17], s[18], s[19]);
        assert(header@ =~= s.take(20));
        assert(reader.remaining() =~= s.skip(20));
    }
    Ok(FixedFields { identification, ttl, protocol, source, destination })
}

impl Ipv4Packet {
    /// Decodes an IPv4 packet from the front of `reader`.
    pub fn from_reader<R: ReadExt>(reader: &mut R) -> (r: Result<Self, Error>)
        ensures
            view_result(r) == ipv4_parse(old(reader).remaining()).value,
            final(reader).remaining() =~= old(reader).remaining().skip(
                ipv4_parse(old(reader).remaining()).used as int,
            ),
            r is Ok ==> internet_checksum(old(reader).remaining().take(20)) == 0,
    {
        let ghost s = reader.remaining();
        let mut header: Vec<u8> = Vec::new();
        let (header_len, total_length) = read_lengths(reader, &mut header)?;
        let fields = read_fixed_fields(reader, &mut header, Ghost(s))?;

        if header_len > MIN_HEADER_LENGTH {
            let options_size = header_len - MIN_HEADER_LENGTH;
            let _options = reader.read_exact(options_size as usize)?;
            return Err(Error::MalformedIpv4(Ipv4Fault::Options(header_len)));
        }
        if header_checksum(header.as_slice()) != 0 {
            return Err(Error::MalformedIpv4(Ipv4Fault::Checksum));
        }
        let payload_length = total_length - header_len as u16;
        let data = match reader.read_exact(payload_length as usize) {
            Ok(data) => data,
            Err(_) => {
                return Err(Error::Truncated(Missing::Payload));
            },
        };
        let second = header[1];
        let packet = Ipv4Packet {
            dscp: second / 4,
            ecn: second % 4,
            identification: fields.identification,
            ttl: fields.ttl,
            protocol: fields.protocol,
            source: Ipv4Addr::from_bits(fields.source),
            destination: Ipv4Addr::from_bits(fields.destination),
            data,
        };
        proof {
            assert(packet@.data =~= s.subrange(20, total_length as int));
        }
        Ok(packet)
    }

    /// Encodes the packet and appends its bytes to `writer`. An invalid field
    /// stops the encoder where the field would have been written.
    pub fn onto_writer(&self, writer: &mut Vec<u8>) -> (r: Result<(), Error>)
        ensures
            r == encode_result(ipv4_fault(self@)),
            final(writer)@ == old(writer)@ + ipv4_written(self@),
    {
        let mut summed: Vec<u8> = Vec::new();

        writer.push(VERSION_AND_IHL);
        summed.push(VERSION_AND_IHL);
        if self.ecn > 3 {
            assert(writer@ =~= old(writer)@ + ipv4_written(self@));
            return Err(Error::InvalidField(FieldFault::Ecn(self.ecn)));
        }
        let service: u8 = (self.dscp % 64) * 4 + self.ecn;
        writer.push(service);
        summed.push(service);

        if self.data.len() > MAX_PAYLOAD_LENGTH {
            assert(writer@ =~= old(writer)@ + ipv4_written(self@));
            return Err(Error::InvalidField(FieldFault::PayloadLength(self.data.len())));
        }
        let total_length: u16 = 20 + self.data.len() as u16;
        push_be_u16(writer, total_length);
        push_be_u16(&mut summed, total_length);

        push_be_u16(writer, self.identification);
        push_be_u16(&mut summed, self.identification);

        push_be_u16(writer, UNFRAGMENTED);
        push_be_u16(&mut summed, UNFRAGMENTED);

        writer.push(self.ttl);
        summed.push(self.ttl);
        writer.push(self.protocol);
        summed.push(self.protocol);
        assert(summed@ =~= ipv4_header_start(self@));
        assert(writer@ =~= old(writer)@ + ipv4_header_start(self@));

        push_be_u32(&mut summed, self.source.to_bits());
        push_be_u32(&mut summed, self.destination.to_bits());
        assert(summed@ =~= ipv4_header_start(self@) + ipv4_addresses(self@));
        let checksum = header_checksum(summed.as_slice());
        push_be_u16(writer, checksum);

        push_be_u32(writer, self.source.to_bits());
        push_be_u32(writer, self.destination.to_bits());
        assert(writer@ =~= old(writer)@ + ipv4_header(self@));

        push_bytes(writer, self.data.as_slice());
        assert(writer@ =~= old(writer)@ + ipv4_written(self@));
        Ok(())
    }
}

} // verus!
