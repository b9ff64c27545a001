//! IPv6 packet headers.

use vstd::prelude::*;
use crate::protocols::ipv4::{ipv4_header_len, Ipv4Packet};
use crate::protocols::transport::Transport;
use crate::wire::{be16, read_be16, read_array16};

verus! {

/// The fixed IPv6 header, and the transport layer after it.
pub struct Ipv6Packet {
    pub version: u8,
    pub payload_length: u16,
    pub next_header: u8,
    pub hop_limit: u8,
    pub src_address: [u8; 16],
    pub dst_address: [u8; 16],
    pub transport: Transport,
}

impl Ipv6Packet {
    /// The 40-byte fixed header is present, and the transport layer that the
    /// next-header byte names can be read from byte 40 on.
    pub open spec fn decodable(bytes: Seq<u8>) -> bool {
        &&& bytes.len() >= 40
        &&& Transport::decodable(bytes[6], bytes.subrange(40, bytes.len() as int))
    }

    /// `self` holds the header fields; extension headers are not walked, so
    /// the transport layer is read from byte 40 on.
    pub open spec fn parsed_from(&self, bytes: Seq<u8>) -> bool {
        &&& self.version == bytes[0] / 16
        &&& self.payload_length == be16(bytes, 4)
        &&& self.next_header == bytes[6]
        &&& self.hop_limit == bytes[7]
        &&& self.src_address@ == bytes.subrange(8, 24)
        &&& self.dst_address@ == bytes.subrange(24, 40)
        &&& self.transport.parsed_from(bytes[6], bytes.subrange(40, bytes.len() as int))
    }

    /// Checks `decodable`.
    pub fn can_parse(bytes: &[u8]) -> (b: bool)
        ensures
            b == Self::decodable(bytes@),
    {
        bytes.len() >= 40 && Transport::can_parse(bytes[6], &bytes[40..bytes.len()])
    }

    /// Decodes an IPv6 packet and the transport layer it carries.
    pub fn parse(bytes: &[u8]) -> (p: Ipv6Packet)
        requires
            Self::decodable(bytes@),
        ensures
            p.parsed_from(bytes@),
    {
        let version = bytes[0] / 16;
        let payload_length = read_be16(bytes, 4);
        let next_header = bytes[6];
        let hop_limit = bytes[7];
        let src_address = read_array16(bytes, 8);
        let dst_address = read_array16(bytes, 24);
        let transport = Transport::parse(next_header, &bytes[40..bytes.len()]);
        Ipv6Packet {
            version,
            payload_length,
            next_header,
            hop_limit,
            src_address,
            dst_address,
            transport,
        }
    }
}

/// IPv4 and IPv6 share the protocol numbering and feed the same transport
/// decoder: when an IPv4 packet's protocol byte equals an IPv6 packet's next
/// header and the bytes after their headers agree, each one's transport
/// layer is what decoding the other's payload gives.
pub proof fn law_ip_versions_share_transport(
    p4: Ipv4Packet,
    b4: Seq<u8>,
    p6: Ipv6Packet,
    b6: Seq<u8>,
)
    requires
        p4.parsed_from(b4),
        p6.parsed_from(b6),
        b4.len() >= 20,
        ipv4_header_len(b4) <= b4.len(),
        b6.len() >= 40,
        b4[9] == b6[6],
        b4.subrange(ipv4_header_len(b4), b4.len() as int) == b6.subrange(40, b6.len() as int),
    ensures
        p4.transport.parsed_from(b6[6], b6.subrange(40, b6.len() as int)),
        p6.transport.parsed_from(b4[9], b4.subrange(ipv4_header_len(b4), b4.len() as int)),
{
}

/// What an IPv6 header decodes to, read straight off its bytes: the version
/// is the high nibble of byte 0, the payload length the big-endian bytes
/// 4-5, next header and hop limit bytes 6 and 7, the addresses bytes 8-23
/// and 24-39; the transport layer starts at byte 40.
pub proof fn law_ipv6_fields(p: Ipv6Packet, bytes: Seq<u8>)
    requires
        Ipv6Packet::decodable(bytes),
        p.parsed_from(bytes),
    ensures
        p.version as int * 16 <= bytes[0] as int,
        (bytes[0] as int) < p.version as int * 16 + 16,
        p.payload_length as int == bytes[4] as int * 256 + bytes[5] as int,
        p.next_header == bytes[6],
        p.hop_limit == bytes[7],
        forall|i: int| 0 <= i < 16 ==> #[trigger] p.src_address@[i] == bytes[8 + i],
        forall|i: int| 0 <= i < 16 ==> #[trigger] p.dst_address@[i] == bytes[24 + i],
        p.transport.parsed_from(bytes[6], bytes.skip(40)),
{
    assert forall|i: int| 0 <= i < 16 implies #[trigger] p.src_address@[i] == bytes[8 + i] by {
        assert(p.src_address@[i] == bytes.subrange(8, 24)[i]);
    }
    assert forall|i: int| 0 <= i < 16 implies #[trigger] p.dst_address@[i] == bytes[24 + i] by {
        assert(p.dst_address@[i] == bytes.subrange(24, 40)[i]);
    }
    assert(bytes.skip(40) =~= bytes.subrange(40, bytes.len() as int));
}

} // verus!
