//! The two checksums of the wire formats: the 16-bit Internet checksum that
//! guards an IPv4 header and the CRC-32 that closes an Ethernet frame.

use crate::wire::{be16_bytes, be32_bytes, push_be_u32, u16_from_be};
use vstd::prelude::*;

verus! {

/// The longest input that the Internet checksum is computed over here. Every
/// IPv4 header, options included, is shorter.
pub const CHECKSUM_INPUT_MAX: usize = 63;

/// The sum of the big-endian 16-bit words of `bytes`. A last byte without a
/// partner counts as the high byte of a word whose low byte is zero.
pub open spec fn word_sum(bytes: Seq<u8>) -> nat
    decreases bytes.len(),
{
    if bytes.len() == 0 {
        0
    } else if bytes.len() == 1 {
        bytes[0] as nat * 256
    } else {
        (bytes[0] as nat * 256 + bytes[1] as nat) + word_sum(bytes.skip(2))
    }
}

/// The 16-bit ones' complement form of `sum`: every carry out of the low 16
/// bits is added back in at the bottom. Only the sum zero folds to zero.
pub open spec fn fold16(sum: nat) -> nat {
    if sum == 0 {
        0
    } else {
        ((sum - 1) % 65535 + 1) as nat
    }
}

/// The Internet checksum of `bytes`: the ones' complement of the ones'
/// complement sum of its 16-bit words.
pub open spec fn internet_checksum(bytes: Seq<u8>) -> u16 {
    (65535 - fold16(word_sum(bytes))) as u16
}

/// The CRC-32 of `bytes` in the variant that Ethernet uses for its frame check
/// sequence (CRC-32/ISO-HDLC).
pub uninterp spec fn crc32_iso_hdlc(bytes: Seq<u8>) -> u32;

/// The word sum of two runs of bytes, the first of even length, is the sum of
/// their word sums.
pub proof fn lemma_word_sum_concat(a: Seq<u8>, b: Seq<u8>)
    requires
        a.len() % 2 == 0,
    ensures
        word_sum(a + b) == word_sum(a) + word_sum(b),
    decreases a.len(),
{
    if a.len() == 0 {
        assert(a + b =~= b);
    } else {
        assert((a + b).skip(2) =~= a.skip(2) + b);
        lemma_word_sum_concat(a.skip(2), b);
    }
}

/// The word sum of two bytes is the 16-bit value that they spell.
pub proof fn lemma_word_sum_pair(v: u16)
    ensures
        word_sum(be16_bytes(v)) == v,
{
    let pair = be16_bytes(v);
    assert(pair.skip(2).len() == 0);
    assert(word_sum(pair) == pair[0] as nat * 256 + pair[1] as nat + word_sum(pair.skip(2)));
}

/// A sum that is not zero and its checksum add up to a sum that folds to all
/// ones.
pub proof fn lemma_fold_with_complement(sum: nat)
    requires
        sum > 0,
    ensures
        fold16((sum + (65535 - fold16(sum))) as nat) == 65535,
{
    let q = (sum - 1) / 65535;
    let r = (sum - 1) % 65535;
    assert(sum - 1 == 65535 * q + r);
    let all = sum + (65535 - fold16(sum));
    assert(all == 65535 * (q + 1));
    assert((all - 1) == 65535 * q + 65534);
    assert((all - 1) % 65535 == 65534) by {
        vstd::arithmetic::div_mod::lemma_fundamental_div_mod_converse(all - 1, 65535, q, 65534);
    }
}

/// A checksum field in place validates. Let `before` and `after` be the bytes
/// on the two sides of a checksum field at an even offset, not all of them
/// zero. With the checksum of `before + after` in the field, the checksum of
/// the whole is zero.
pub proof fn lemma_checksum_in_place(before: Seq<u8>, after: Seq<u8>)
    requires
        before.len() % 2 == 0,
        word_sum(before + after) > 0,
    ensures
        internet_checksum(before + be16_bytes(internet_checksum(before + after)) + after) == 0,
{
    let c = internet_checksum(before + after);
    let field = be16_bytes(c);
    lemma_word_sum_concat(before, after);
    assert(before + field + after =~= before + (field + after));
    lemma_word_sum_concat(before, field + after);
    lemma_word_sum_concat(field, after);
    lemma_word_sum_pair(c);
    lemma_fold_with_complement(word_sum(before + after));
}

/// Bytes that start with a byte other than zero have a word sum other than
/// zero.
pub proof fn lemma_word_sum_positive(bytes: Seq<u8>)
    requires
        bytes.len() >= 1,
        bytes[0] != 0,
    ensures
        word_sum(bytes) > 0,
{
}

/// Calls `internet_checksum::checksum`. The contract claims that the two bytes
/// it returns are, high byte first, the ones' complement of the ones'
/// complement sum of the big-endian 16-bit words of the input, an odd last
/// byte being padded with a zero byte. It is claimed only of inputs short
/// enough for that crate to sum them one word at a time.
#[verifier::external_body]
fn checksum_bytes(bytes: &[u8]) -> (r: [u8; 2])
    requires
        bytes@.len() <= CHECKSUM_INPUT_MAX,
    ensures
        r@ == be16_bytes(internet_checksum(bytes@)),
{
    internet_checksum::checksum(bytes)
}

/// Calls `crc::Crc::<u32>::checksum` on a `Crc` made by `crc::Crc::<u32>::new`
/// for `crc::CRC_32_ISO_HDLC`. The contract claims only that the result is a
/// function of the bytes.
#[verifier::external_body]
fn crc32_of(bytes: &[u8]) -> (r: u32)
    ensures
        r == crc32_iso_hdlc(bytes@),
{
    crc::Crc::<u32>::new(&crc::CRC_32_ISO_HDLC).checksum(bytes)
}

/// Computes the Internet checksum of a header.
pub fn header_checksum(bytes: &[u8]) -> (c: u16)
    requires
        bytes@.len() <= CHECKSUM_INPUT_MAX,
    ensures
        c == internet_checksum(bytes@),
{
    let pair = checksum_bytes(bytes);
    let c = u16_from_be(pair[0], pair[1]);
    proof {
        let want = internet_checksum(bytes@);
        assert(pair@[0] == be16_bytes(want)[0]);
        assert(pair@[1] == be16_bytes(want)[1]);
        crate::wire::lemma_be16_of_bytes(want);
    }
    c
}

/// Appends the frame check sequence `fcs` to `body`, most significant byte
/// first.
pub fn append_fcs(body: Vec<u8>, fcs: u32) -> (sealed: Vec<u8>)
    ensures
        sealed@ == body@ + be32_bytes(fcs),
{
    let mut sealed = body;
    push_be_u32(&mut sealed, fcs);
    sealed
}

/// Closes a serialized frame with the CRC-32 of its bytes.
pub fn seal_frame(body: Vec<u8>) -> (sealed: Vec<u8>)
    ensures
        sealed@ == body@ + be32_bytes(crc32_iso_hdlc(body@)),
{
    let fcs = crc32_of(body.as_slice());
    append_fcs(body, fcs)
}

} // verus!
