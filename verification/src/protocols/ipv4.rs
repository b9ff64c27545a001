//! IPv4 packet headers.

use vstd::prelude::*;
use crate::protocols::transport::Transport;
use crate::wire::{be32, read_be32};

verus! {

/// The header fields that decoding reads, and the transport layer after them.
pub struct Ipv4Packet {
    pub version: u8,
    pub ihl: u8,
    pub protocol: u8,
    pub src_ip: u32,
    pub dest_ip: u32,
    pub transport: Transport,
}

/// The header length in bytes: the IHL field (low nibble of byte 0) times four.
pub open spec fn ipv4_header_len(bytes: Seq<u8>) -> int {
    (bytes[0] % 16) * 4
}

impl Ipv4Packet {
    /// The fixed header is present, the header length lies within the bytes,
    /// and the transport layer after it can be read.
    pub open spec fn decodable(bytes: Seq<u8>) -> bool {
        &&& bytes.len() >= 20
        &&& ipv4_header_len(bytes) <= bytes.len()
        &&& Transport::decodable(bytes[9], bytes.subrange(ipv4_header_len(bytes), bytes.len() as int))
    }

    /// `self` holds the header fields, and the transport layer is what the
    /// protocol byte selects, read from the end of the header on.
    pub open spec fn parsed_from(&self, bytes: Seq<u8>) -> bool {
        &&& self.version == bytes[0] / 16
        &&& self.ihl == bytes[0] % 16
        &&& self.protocol == bytes[9]
        &&& self.src_ip == be32(bytes, 12)
        &&& self.dest_ip == be32(bytes, 16)
        &&& self.transport.parsed_from(
            bytes[9],
            bytes.subrange(ipv4_header_len(bytes), bytes.len() as int),
        )
    }

    /// Checks `decodable`.
    pub fn can_parse(bytes: &[u8]) -> (b: bool)
        ensures
            b == Self::decodable(bytes@),
    {
        if bytes.len() < 20 {
            return false;
        }
        let start = ((bytes[0] % 16) * 4) as usize;
        if start > bytes.len() {
            return false;
        }
        Transport::can_parse(bytes[9], &bytes[start..bytes.len()])
    }

    /// Decodes an IPv4 packet and the transport layer it carries.
    pub fn parse(bytes: &[u8]) -> (p: Ipv4Packet)
        requires
            Self::decodable(bytes@),
        ensures
            p.parsed_from(bytes@),
    {
        let version = bytes[0] / 16;
        let ihl = bytes[0] % 16;
        let protocol = bytes[9];
        let src_ip = read_be32(bytes, 12);
        let dest_ip = read_be32(bytes, 16);
        let transport_header_start = (ihl * 4) as usize;
        let transport = Transport::parse(protocol, &bytes[transport_header_start..bytes.len()]);
        Ipv4Packet { version, ihl, protocol, src_ip, dest_ip, transport }
    }
}

/// What an IPv4 header decodes to, read straight off its bytes: version and
/// header length (in 32-bit words) are the high and low nibble of byte 0,
/// the protocol is byte 9, and the addresses are the big-endian words of
/// bytes 12-15 and 16-19; the transport layer starts four bytes per header
/// word into the packet.
pub proof fn law_ipv4_fields(p: Ipv4Packet, bytes: Seq<u8>)
    requires
        Ipv4Packet::decodable(bytes),
        p.parsed_from(bytes),
    ensures
        p.version as int * 16 + p.ihl as int == bytes[0] as int,
        p.ihl < 16,
        p.protocol == bytes[9],
        p.src_ip as int == ((bytes[12] as int * 256 + bytes[13] as int) * 256 + bytes[14] as int)
            * 256 + bytes[15] as int,
        p.dest_ip as int == ((bytes[16] as int * 256 + bytes[17] as int) * 256 + bytes[18] as int)
            * 256 + bytes[19] as int,
        p.transport.parsed_from(bytes[9], bytes.skip(4 * p.ihl as int)),
{
    assert(bytes.skip(4 * p.ihl as int) =~= bytes.subrange(ipv4_header_len(bytes), bytes.len() as int));
}

} // verus!
