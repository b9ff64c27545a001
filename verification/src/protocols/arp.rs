//! ARP packets (Ethernet hardware, IPv4 protocol addresses).

use vstd::prelude::*;
use crate::wire::{be16, be32, read_be16, read_be32, read_array6};

verus! {

/// Opcode and the sender and target addresses of an ARP packet.
pub struct ArpPacket {
    pub opcode: u16,
    pub sender_mac: [u8; 6],
    pub sender_ip: u32,
    pub target_mac: [u8; 6],
    pub target_ip: u32,
}

impl ArpPacket {
    /// All fields up to the target IP (bytes 24..28) are present.
    pub open spec fn decodable(bytes: Seq<u8>) -> bool {
        bytes.len() >= 28
    }

    /// `self` holds the opcode (offset 6), the sender MAC and IP (8, 14) and
    /// the target MAC and IP (18, 24).
    pub open spec fn parsed_from(&self, bytes: Seq<u8>) -> bool {
        &&& self.opcode == be16(bytes, 6)
        &&& self.sender_mac@ == bytes.subrange(8, 14)
        &&& self.sender_ip == be32(bytes, 14)
        &&& self.target_mac@ == bytes.subrange(18, 24)
        &&& self.target_ip == be32(bytes, 24)
    }

    /// Decodes an ARP packet.
    pub fn parse(bytes: &[u8]) -> (p: ArpPacket)
        requires
            Self::decodable(bytes@),
        ensures
            p.parsed_from(bytes@),
    {
        let opcode = read_be16(bytes, 6);
        let sender_mac = read_array6(bytes, 8);
        let sender_ip = read_be32(bytes, 14);
        let target_mac = read_array6(bytes, 18);
        let target_ip = read_be32(bytes, 24);
        ArpPacket { opcode, sender_mac, sender_ip, target_mac, target_ip }
    }
}

/// What an ARP packet decodes to, read straight off its bytes: the
/// big-endian opcode of bytes 6-7, the sender MAC of bytes 8-13 and IPv4
/// address of bytes 14-17, the target MAC of bytes 18-23 and IPv4 address of
/// bytes 24-27.
pub proof fn law_arp_fields(p: ArpPacket, bytes: Seq<u8>)
    requires
        ArpPacket::decodable(bytes),
        p.parsed_from(bytes),
    ensures
        p.opcode as int == bytes[6] as int * 256 + bytes[7] as int,
        forall|i: int| 0 <= i < 6 ==> #[trigger] p.sender_mac@[i] == bytes[8 + i],
        forall|i: int| 0 <= i < 6 ==> #[trigger] p.target_mac@[i] == bytes[18 + i],
        p.sender_ip as int == ((bytes[14] as int * 256 + bytes[15] as int) * 256 + bytes[16] as int)
            * 256 + bytes[17] as int,
        p.target_ip as int == ((bytes[24] as int * 256 + bytes[25] as int) * 256 + bytes[26] as int)
            * 256 + bytes[27] as int,
{
    assert forall|i: int| 0 <= i < 6 implies #[trigger] p.sender_mac@[i] == bytes[8 + i] by {
        assert(p.sender_mac@[i] == bytes.subrange(8, 14)[i]);
    }
    assert forall|i: int| 0 <= i < 6 implies #[trigger] p.target_mac@[i] == bytes[18 + i] by {
        assert(p.target_mac@[i] == bytes.subrange(18, 24)[i]);
    }
}

} // verus!
