//! ICMPv6 messages.

use vstd::prelude::*;
use crate::wire::{be16, word16, read_be16, read_array16};

verus! {

/// Type, code and the body that the type selects.
pub struct Icmpv6Packet {
    pub icmp_type: u8,
    pub code: u8,
    pub body: Icmpv6Body,
}

/// Echo messages carry identifier and sequence; neighbor discovery a target.
pub enum Icmpv6Body {
    Echo { identifier: u16, sequence: u16 },
    Neighbor { target: [u8; 16] },
    Other,
}

/// Echo request (128) and echo reply (129).
pub open spec fn is_icmpv6_echo(icmp_type: u8) -> bool {
    icmp_type == 128 || icmp_type == 129
}

/// Neighbor solicitation (135) and neighbor advertisement (136).
pub open spec fn is_icmpv6_neighbor(icmp_type: u8) -> bool {
    icmp_type == 135 || icmp_type == 136
}

impl Icmpv6Packet {
    /// Type and code must be present, and the fields that the type selects.
    pub open spec fn decodable(bytes: Seq<u8>) -> bool {
        &&& bytes.len() >= 2
        &&& is_icmpv6_echo(bytes[0]) ==> bytes.len() >= 8
        &&& is_icmpv6_neighbor(bytes[0]) ==> bytes.len() >= 24
    }

    /// `self` holds the type, the code and the body that the type selects.
    pub open spec fn parsed_from(&self, bytes: Seq<u8>) -> bool {
        &&& self.icmp_type == bytes[0]
        &&& self.code == bytes[1]
        &&& if is_icmpv6_echo(bytes[0]) {
            self.body == (Icmpv6Body::Echo {
                identifier: be16(bytes, 4),
                sequence: be16(bytes, 6),
            })
        } else if is_icmpv6_neighbor(bytes[0]) {
            &&& self.body is Neighbor
            &&& self.body->target@ == bytes.subrange(8, 24)
        } else {
            self.body == Icmpv6Body::Other
        }
    }

    /// Decodes an ICMPv6 message.
    pub fn parse(bytes: &[u8]) -> (p: Icmpv6Packet)
        requires
            Self::decodable(bytes@),
        ensures
            p.parsed_from(bytes@),
    {
        let icmp_type = bytes[0];
        let code = bytes[1];
        let body = if icmp_type == 128 || icmp_type == 129 {
            Icmpv6Body::Echo { identifier: read_be16(bytes, 4), sequence: read_be16(bytes, 6) }
        } else if icmp_type == 135 || icmp_type == 136 {
            Icmpv6Body::Neighbor { target: read_array16(bytes, 8) }
        } else {
            Icmpv6Body::Other
        };
        Icmpv6Packet { icmp_type, code, body }
    }
}

/// What an ICMPv6 message decodes to, read straight off its bytes: type and
/// code are bytes 0 and 1; an echo request (128) or reply (129) carries the
/// big-endian identifier of bytes 4-5 and sequence number of bytes 6-7; a
/// neighbor solicitation (135) or advertisement (136) carries the target
/// address of bytes 8-23; any other type carries no fields.
pub proof fn law_icmpv6_fields(p: Icmpv6Packet, bytes: Seq<u8>)
    requires
        Icmpv6Packet::decodable(bytes),
        p.parsed_from(bytes),
    ensures
        p.icmp_type == bytes[0],
        p.code == bytes[1],
        bytes[0] == 128 || bytes[0] == 129 ==> (p.body matches Icmpv6Body::Echo {
            identifier,
            sequence,
        } && identifier == word16(bytes[4], bytes[5]) && sequence == word16(bytes[6], bytes[7])),
        bytes[0] == 135 || bytes[0] == 136 ==> (p.body matches Icmpv6Body::Neighbor { target }
            && target@.len() == 16 && forall|i: int| 0 <= i < 16 ==> #[trigger] target@[i] == bytes[8 + i]),
        !(bytes[0] == 128 || bytes[0] == 129 || bytes[0] == 135 || bytes[0] == 136) ==> p.body is Other,
{
    if bytes[0] == 135 || bytes[0] == 136 {
        let t = p.body->target;
        assert forall|i: int| 0 <= i < 16 implies #[trigger] t@[i] == bytes[8 + i] by {
            assert(t@[i] == bytes.subrange(8, 24)[i]);
        }
    }
}

} // verus!
