//! Codec for Ethernet frames that carry ARP or IPv4 packets.
//!
//! Every decoder reads from a [`readext::ReadExt`] byte source and every
//! encoder appends to a byte vector. Each contract is stated over the wire
//! format as a function on byte sequences.

pub mod addr;
pub mod checksum;
pub mod error;
pub mod eth;
pub mod layer3;
pub mod readext;
pub mod text;
pub mod wire;
