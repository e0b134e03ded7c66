//! Ethernet: hardware addresses and frames.

use crate::checksum::{crc32_iso_hdlc, seal_frame};
use crate::error::{encode_result, Error};
use crate::layer3::{
    layer3_fault, layer3_parse, layer3_written, lemma_layer3_round_trip, payload_fits,
    Layer3Packet, Layer3View,
};
use crate::readext::{
    accepted, cut_short, rest_after, take_exact, view_result, Parsed, ReadExt,
};
use crate::text::{hex_pair, push_hex_pair};
use crate::wire::{
    be16_at, be16_bytes, be32_bytes, lemma_be16_of_bytes, push_be_u16, push_bytes,
};
use vstd::prelude::*;
use vstd::std_specs::convert::FromSpecImpl;
use vstd::string::StringExecFns;

pub mod ethtype;

verus! {

/// The number of bytes in a hardware address.
pub const MAC6_LEN: usize = 6;

/// A 48-bit Ethernet hardware address.
#[derive(Copy, Clone, PartialEq, Eq, Debug)]
pub struct Mac6 {
    inner: [u8; 6],
}

impl View for Mac6 {
    type V = Seq<u8>;

    closed spec fn view(&self) -> Seq<u8> {
        self.inner@
    }
}

/// The text form of the hardware address with the bytes `bytes`: upper-case
/// hexadecimal pairs with colons between them.
pub open spec fn mac_text(bytes: Seq<u8>) -> Seq<char>
    recommends
        bytes.len() == 6,
{
    hex_pair(bytes[0]) + seq![':'] + hex_pair(bytes[1]) + seq![':'] + hex_pair(bytes[2]) + seq![
        ':',
    ] + hex_pair(bytes[3]) + seq![':'] + hex_pair(bytes[4]) + seq![':'] + hex_pair(bytes[5])
}

impl From<[u8; 6]> for Mac6 {
    fn from(inner: [u8; 6]) -> (mac: Self)
        ensures
            mac@ == inner@,
    {
        Mac6 { inner }
    }
}

impl FromSpecImpl<[u8; 6]> for Mac6 {
    open spec fn obeys_from_spec() -> bool {
        true
    }

    closed spec fn from_spec(inner: [u8; 6]) -> Self {
        Mac6 { inner }
    }
}

impl Mac6 {
    /// A hardware address has six bytes.
    pub proof fn lemma_view(self)
        ensures
            self@.len() == 6,
    {
    }

    /// The six bytes of the address.
    pub fn into_inner(self) -> (bytes: [u8; 6])
        ensures
            bytes@ == self@,
    {
        self.inner
    }

    /// The six bytes of the address.
    pub fn as_bytes(&self) -> (bytes: &[u8])
        ensures
            bytes@ == self@,
    {
        self.inner.as_slice()
    }

    /// Reads a hardware address: the next six bytes of `reader`.
    pub fn from_reader<R: ReadExt>(reader: &mut R) -> (r: Result<Self, Error>)
        ensures
            view_result(r) == take_exact(old(reader).remaining(), 6),
            final(reader).remaining() == rest_after(old(reader).remaining(), 6),
    {
        match reader.read_exact(MAC6_LEN) {
            Ok(buf) => {
                let mac = Mac6 { inner: [buf[0], buf[1], buf[2], buf[3], buf[4], buf[5]] };
                assert(mac@ =~= old(reader).remaining().take(6));
                Ok(mac)
            },
            Err(e) => Err(e),
        }
    }

    /// The address as text, such as `36:1F:B8:A8:1B:C5`.
    pub fn to_string(&self) -> (s: String)
        ensures
            s@ == mac_text(self@),
    {
        proof {
            reveal_strlit(":");
        }
        let mut s = String::new();
        let mut i: usize = 0;
        while i < 6
            invariant
                i <= 6,
                i == 0 ==> s@ == Seq::<char>::empty(),
                i > 0 ==> s@ == mac_text_prefix(self@, i as int),
                ":"@ == seq![':'],
            decreases 6 - i,
        {
            if i > 0 {
                s.append(":");
            }
            push_hex_pair(&mut s, self.inner[i]);
            i = i + 1;
            proof {
                reveal_with_fuel(mac_text_prefix, 2);
                assert(s@ =~= mac_text_prefix(self@, i as int));
            }
        }
        proof {
            reveal_with_fuel(mac_text_prefix, 7);
            assert(s@ =~= mac_text(self@));
        }
        s
    }
}

/// The text of the first `n` bytes of a hardware address, `n` at least 1.
pub open spec fn mac_text_prefix(bytes: Seq<u8>, n: int) -> Seq<char>
    decreases n,
{
    if n <= 1 {
        hex_pair(bytes[0])
    } else {
        mac_text_prefix(bytes, n - 1) + seq![':'] + hex_pair(bytes[n - 1])
    }
}

/// An Ethernet frame.
#[derive(Clone, Debug, PartialEq)]
pub struct EthFrame {
    /// Destination address.
    pub dst: Mac6,
    /// Source address.
    pub src: Mac6,
    /// The protocol of the payload or, below 1536, its length.
    pub ethtype: u16,
    pub payload: Layer3Packet,
}

/// The model of an Ethernet frame: the addresses as their six bytes.
pub struct EthFrameView {
    pub dst: Seq<u8>,
    pub src: Seq<u8>,
    pub ethtype: u16,
    pub payload: Layer3View,
}

impl View for EthFrame {
    type V = EthFrameView;

    open spec fn view(&self) -> EthFrameView {
        EthFrameView {
            dst: self.dst@,
            src: self.src@,
            ethtype: self.ethtype,
            payload: self.payload@,
        }
    }
}

impl EthFrameView {
    /// The type field says what the payload is: below 1536 bytes of that
    /// number, at `IPV4` an IPv4 packet that can be encoded, at `ARP` an ARP
    /// packet.
    pub open spec fn wf(self) -> bool {
        &&& self.dst.len() == 6
        &&& self.src.len() == 6
        &&& payload_fits(self.ethtype, self.payload)
    }
}

/// What decoding a frame from `s` gives: two addresses, the type field, and
/// the payload that the type field announces. A frame check sequence behind
/// the payload is not read.
pub open spec fn eth_parse(s: Seq<u8>) -> Parsed<EthFrameView> {
    if s.len() < 14 {
        cut_short(s)
    } else {
        let inner = layer3_parse(be16_at(s, 12), s.skip(14));
        Parsed {
            value: match inner.value {
                Ok(payload) => Ok(
                    EthFrameView {
                        dst: s.subrange(0, 6),
                        src: s.subrange(6, 12),
                        ethtype: be16_at(s, 12),
                        payload,
                    },
                ),
                Err(e) => Err(e),
            },
            used: 14 + inner.used,
        }
    }
}

/// The bytes of the frame `f` that the frame check sequence guards, where
/// the payload can be encoded.
pub open spec fn eth_body(f: EthFrameView) -> Seq<u8> {
    f.dst + f.src + be16_bytes(f.ethtype) + layer3_written(f.payload)
}

/// The bytes of the frame `f` on the wire: the body and its CRC-32.
pub open spec fn eth_bytes(f: EthFrameView) -> Seq<u8> {
    eth_body(f) + be32_bytes(crc32_iso_hdlc(eth_body(f)))
}

/// What the encoder writes for `f`: the frame, or nothing where the payload
/// cannot be encoded.
pub open spec fn eth_written(f: EthFrameView) -> Seq<u8> {
    if layer3_fault(f.payload) is None {
        eth_bytes(f)
    } else {
        Seq::empty()
    }
}

/// Decoding what the encoder wrote for a frame gives the frame back,
/// whatever follows it in the stream. The decoder stops in front of the frame
/// check sequence: it consumes the body and leaves those four bytes unread.
pub proof fn lemma_frame_round_trip(f: EthFrame, rest: Seq<u8>)
    requires
        payload_fits(f@.ethtype, f@.payload),
    ensures
        f@.wf(),
        eth_written(f@) == eth_bytes(f@),
        eth_bytes(f@).len() == eth_body(f@).len() + 4,
        eth_parse(eth_bytes(f@)) == accepted(f@, eth_body(f@).len()),
        eth_parse(eth_bytes(f@) + rest) == accepted(f@, eth_body(f@).len()),
{
    f.dst.lemma_view();
    f.src.lemma_view();
    lemma_frame_view_round_trip(f@, rest);
    lemma_frame_view_round_trip(f@, Seq::empty());
    assert(eth_bytes(f@) + Seq::<u8>::empty() =~= eth_bytes(f@));
}

/// Decoding the bytes of a frame model whose type field goes with its payload
/// gives the model back and consumes the body.
pub proof fn lemma_frame_view_round_trip(f: EthFrameView, rest: Seq<u8>)
    requires
        f.wf(),
    ensures
        eth_written(f) == eth_bytes(f),
        eth_parse(eth_bytes(f) + rest) == accepted(f, eth_body(f).len()),
{
    let fcs = be32_bytes(crc32_iso_hdlc(eth_body(f)));
    let s = eth_bytes(f) + rest;
    let payload = layer3_written(f.payload);
    lemma_layer3_round_trip(f.ethtype, f.payload, fcs + rest);
    lemma_be16_of_bytes(f.ethtype);
    assert(s[12] == be16_bytes(f.ethtype)[0] && s[13] == be16_bytes(f.ethtype)[1]);
    assert(be16_at(s, 12) == f.ethtype);
    assert(s.skip(14) =~= payload + (fcs + rest));
    assert(s.subrange(0, 6) =~= f.dst);
    assert(s.subrange(6, 12) =~= f.src);
}

impl EthFrame {
    /// Decodes a frame from the front of `reader`.
    pub fn from_reader<R: ReadExt>(reader: &mut R) -> (r: Result<Self, Error>)
        ensures
            view_result(r) == eth_parse(old(reader).remaining()).value,
            final(reader).remaining() =~= old(reader).remaining().skip(
                eth_parse(old(reader).remaining()).used as int,
            ),
    {
        let ghost s = reader.remaining();
        let dst = Mac6::from_reader(reader)?;
        let src = Mac6::from_reader(reader)?;
        let ethtype = reader.read_be_u16()?;
        assert(reader.remaining() =~= s.skip(14));
        let payload = Layer3Packet::from_reader(ethtype, reader)?;
        let frame = EthFrame { dst, src, ethtype, payload };
        proof {
            assert(frame@.dst =~= s.subrange(0, 6));
            assert(frame@.src =~= s.subrange(6, 12));
        }
        Ok(frame)
    }

    /// Encodes the frame, closes it with its frame check sequence and appends
    /// it to `writer`. Where the payload cannot be encoded nothing is
    /// appended.
    pub fn onto_writer(&self, writer: &mut Vec<u8>) -> (r: Result<(), Error>)
        ensures
            r == encode_result(layer3_fault(self@.payload)),
            final(writer)@ == old(writer)@ + eth_written(self@),
    {
        let mut body: Vec<u8> = Vec::new();
        push_bytes(&mut body, self.dst.as_bytes());
        push_bytes(&mut body, self.src.as_bytes());
        push_be_u16(&mut body, self.ethtype);
        match self.payload.onto_writer(&mut body) {
            Ok(()) => {},
            Err(e) => {
                assert(writer@ =~= old(writer)@ + eth_written(self@));
                return Err(e);
            },
        }
        assert(body@ =~= eth_body(self@));
        let sealed = seal_frame(body);
        push_bytes(writer, sealed.as_slice());
        Ok(())
    }
}

} // verus!
