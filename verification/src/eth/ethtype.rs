//! Values of the type field of an Ethernet frame.

use vstd::prelude::*;

verus! {

/// Internet Protocol version 4.
pub const IPV4: u16 = 0x0800;

/// Address Resolution Protocol.
pub const ARP: u16 = 0x0806;

/// Internet Protocol version 6.
pub const IPV6: u16 = 0x86dd;

/// The smallest value that names a protocol. Anything below is the length of
/// the payload.
pub const FIRST_PROTOCOL: u16 = 1536;

} // verus!
