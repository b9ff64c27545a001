//! ICMP (for IPv4) messages.

use vstd::prelude::*;
use crate::wire::{be16, word16, read_be16};

verus! {

/// Type, code and, for echo messages, identifier and sequence number.
pub struct IcmpPacket {
    pub icmp_type: u8,
    pub code: u8,
    pub body: IcmpBody,
}

/// What follows the type and code.
pub enum IcmpBody {
    Echo { identifier: u16, sequence: u16 },
    Other,
}

/// Echo reply (0) and echo request (8) carry an identifier and a sequence number.
pub open spec fn is_icmp_echo(icmp_type: u8) -> bool {
    icmp_type == 0 || icmp_type == 8
}

impl IcmpPacket {
    /// Type and code must be present, and the echo fields of an echo message.
    pub open spec fn decodable(bytes: Seq<u8>) -> bool {
        &&& bytes.len() >= 2
        &&& is_icmp_echo(bytes[0]) ==> bytes.len() >= 8
    }

    /// `self` holds the type, the code and the body that the type selects.
    pub open spec fn parsed_from(&self, bytes: Seq<u8>) -> bool {
        &&& self.icmp_type == bytes[0]
        &&& self.code == bytes[1]
        &&& if is_icmp_echo(bytes[0]) {
            self.body == (IcmpBody::Echo { identifier: be16(bytes, 4), sequence: be16(bytes, 6) })
        } else {
            self.body == IcmpBody::Other
        }
    }

    /// Decodes an ICMP message.
    pub fn parse(bytes: &[u8]) -> (p: IcmpPacket)
        requires
            Self::decodable(bytes@),
        ensures
            p.parsed_from(bytes@),
    {
        let icmp_type = bytes[0];
        let code = bytes[1];
        let body = if icmp_type == 0 || icmp_type == 8 {
            IcmpBody::Echo { identifier: read_be16(bytes, 4), sequence: read_be16(bytes, 6) }
        } else {
            IcmpBody::Other
        };
        IcmpPacket { icmp_type, code, body }
    }
}

/// What an ICMP message decodes to, read straight off its bytes: type and
/// code are bytes 0 and 1; an echo request (8) or reply (0) carries the
/// 16-bit big-endian identifier of bytes 4-5 and sequence number of bytes
/// 6-7, in full; any other type carries no fields.
pub proof fn law_icmp_fields(p: IcmpPacket, bytes: Seq<u8>)
    requires
        IcmpPacket::decodable(bytes),
        p.parsed_from(bytes),
    ensures
        p.icmp_type == bytes[0],
        p.code == bytes[1],
        bytes[0] == 0 || bytes[0] == 8 ==> (p.body matches IcmpBody::Echo { identifier, sequence }
            && identifier == word16(bytes[4], bytes[5]) && sequence == word16(bytes[6], bytes[7])),
        bytes[0] != 0 && bytes[0] != 8 ==> p.body is Other,
{
}

} // verus!
