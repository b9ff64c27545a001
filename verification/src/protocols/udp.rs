//! UDP datagram headers.

use vstd::prelude::*;
use crate::wire::{be16, read_be16};

verus! {

/// The ports and the length field of a UDP header.
pub struct UdpDatagram {
    pub src_port: u16,
    pub dest_port: u16,
    pub length: u16,
}

impl UdpDatagram {
    /// A UDP header is read only where all of its first six bytes are present.
    pub open spec fn decodable(bytes: Seq<u8>) -> bool {
        bytes.len() >= 6
    }

    /// `self` holds the fields at offsets 0, 2 and 4.
    pub open spec fn parsed_from(&self, bytes: Seq<u8>) -> bool {
        &&& self.src_port == be16(bytes, 0)
        &&& self.dest_port == be16(bytes, 2)
        &&& self.length == be16(bytes, 4)
    }

    /// Decodes a UDP header.
    pub fn parse(bytes: &[u8]) -> (d: UdpDatagram)
        requires
            Self::decodable(bytes@),
        ensures
            d.parsed_from(bytes@),
    {
        let src_port = read_be16(bytes, 0);
        let dest_port = read_be16(bytes, 2);
        let length = read_be16(bytes, 4);
        UdpDatagram { src_port, dest_port, length }
    }
}

/// What a UDP header decodes to, read straight off its bytes: the
/// big-endian ports of bytes 0-1 and 2-3 and the length of bytes 4-5.
pub proof fn law_udp_fields(d: UdpDatagram, bytes: Seq<u8>)
    requires
        UdpDatagram::decodable(bytes),
        d.parsed_from(bytes),
    ensures
        d.src_port as int == bytes[0] as int * 256 + bytes[1] as int,
        d.dest_port as int == bytes[2] as int * 256 + bytes[3] as int,
        d.length as int == bytes[4] as int * 256 + bytes[5] as int,
{
}

} // verus!
