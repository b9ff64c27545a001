//! Ethernet II frames and the payloads their EtherType selects.

use vstd::prelude::*;
use crate::model::other::Other;
use crate::protocols::arp::ArpPacket;
use crate::protocols::ipv4::Ipv4Packet;
use crate::protocols::ipv6::Ipv6Packet;
use crate::wire::{be16, read_be16, read_array6};

verus! {

/// The Ethernet II header and the payload that follows it.
pub struct Ethernet {
    pub dest_mac: [u8; 6],
    pub src_mac: [u8; 6],
    pub ethertype: u16,
    pub payload: EtherPayload,
}

/// What an Ethernet frame carries.
pub enum EtherPayload {
    Ipv4(Ipv4Packet),
    Arp(ArpPacket),
    Ipv6(Ipv6Packet),
    Other(Other),
}

impl EtherPayload {
    /// The decoder that `ethertype` selects can read `bytes`.
    pub open spec fn decodable(ethertype: u16, bytes: Seq<u8>) -> bool {
        if ethertype == 0x0800 {
            Ipv4Packet::decodable(bytes)
        } else if ethertype == 0x0806 {
            ArpPacket::decodable(bytes)
        } else if ethertype == 0x86DD {
            Ipv6Packet::decodable(bytes)
        } else {
            true
        }
    }

    /// `self` is what the decoder that `ethertype` selects makes of `bytes`;
    /// an unknown EtherType keeps all of the bytes.
    pub open spec fn parsed_from(&self, ethertype: u16, bytes: Seq<u8>) -> bool {
        if ethertype == 0x0800 {
            self matches EtherPayload::Ipv4(p) && p.parsed_from(bytes)
        } else if ethertype == 0x0806 {
            self matches EtherPayload::Arp(p) && p.parsed_from(bytes)
        } else if ethertype == 0x86DD {
            self matches EtherPayload::Ipv6(p) && p.parsed_from(bytes)
        } else {
            self matches EtherPayload::Other(p) && p.parsed_from(bytes)
        }
    }

    /// Checks `decodable`.
    pub fn can_parse(ethertype: u16, bytes: &[u8]) -> (b: bool)
        ensures
            b == Self::decodable(ethertype, bytes@),
    {
        if ethertype == 0x0800 {
            Ipv4Packet::can_parse(bytes)
        } else if ethertype == 0x0806 {
            bytes.len() >= 28
        } else if ethertype == 0x86DD {
            Ipv6Packet::can_parse(bytes)
        } else {
            true
        }
    }

    /// Decodes the payload that `ethertype` names.
    pub fn parse(ethertype: u16, bytes: &[u8]) -> (p: EtherPayload)
        requires
            Self::decodable(ethertype, bytes@),
        ensures
            p.parsed_from(ethertype, bytes@),
    {
        match ethertype {
            0x0800 => EtherPayload::Ipv4(Ipv4Packet::parse(bytes)),
            0x0806 => EtherPayload::Arp(ArpPacket::parse(bytes)),
            0x86DD => EtherPayload::Ipv6(Ipv6Packet::parse(bytes)),
            _ => EtherPayload::Other(Other::parse(bytes)),
        }
    }
}

impl Ethernet {
    /// The 14-byte header is present and its payload can be read.
    pub open spec fn decodable(bytes: Seq<u8>) -> bool {
        &&& bytes.len() >= 14
        &&& EtherPayload::decodable(be16(bytes, 12), bytes.subrange(14, bytes.len() as int))
    }

    /// `self` holds the MAC addresses and the EtherType, and the payload is
    /// what the EtherType selects, read from byte 14 on.
    pub open spec fn parsed_from(&self, bytes: Seq<u8>) -> bool {
        &&& self.dest_mac@ == bytes.subrange(0, 6)
        &&& self.src_mac@ == bytes.subrange(6, 12)
        &&& self.ethertype == be16(bytes, 12)
        &&& self.payload.parsed_from(be16(bytes, 12), bytes.subrange(14, bytes.len() as int))
    }

    /// Checks `decodable`: whether `parse` can decode `bytes` all the way down.
    pub fn can_parse(bytes: &[u8]) -> (b: bool)
        ensures
            b == Self::decodable(bytes@),
    {
        bytes.len() >= 14 && EtherPayload::can_parse(read_be16(bytes, 12), &bytes[14..bytes.len()])
    }

    /// Decodes an Ethernet frame and everything inside it.
    pub fn parse(bytes: &[u8]) -> (e: Ethernet)
        requires
            Self::decodable(bytes@),
        ensures
            e.parsed_from(bytes@),
    {
        let ethertype = read_be16(bytes, 12);
        Ethernet {
            dest_mac: read_array6(bytes, 0),
            src_mac: read_array6(bytes, 6),
            ethertype: ethertype,
            payload: EtherPayload::parse(ethertype, &bytes[14..bytes.len()]),
        }
    }
}

/// Nothing is dropped: a frame whose EtherType no decoder claims keeps every
/// byte after the Ethernet header as its payload.
pub proof fn law_unknown_ethertype_kept(e: Ethernet, bytes: Seq<u8>)
    requires
        e.parsed_from(bytes),
        e.ethertype != 0x0800 && e.ethertype != 0x0806 && e.ethertype != 0x86DD,
    ensures
        e.payload matches EtherPayload::Other(o) && o.other@ == bytes.subrange(
            14,
            bytes.len() as int,
        ),
{
}

/// What an Ethernet frame decodes to, read straight off its bytes: the
/// destination MAC is bytes 0-5, the source MAC bytes 6-11, the EtherType
/// the big-endian bytes 12-13, and the payload is what that EtherType
/// selects, read from byte 14 on.
pub proof fn law_ethernet_fields(e: Ethernet, bytes: Seq<u8>)
    requires
        Ethernet::decodable(bytes),
        e.parsed_from(bytes),
    ensures
        forall|i: int| 0 <= i < 6 ==> #[trigger] e.dest_mac@[i] == bytes[i],
        forall|i: int| 0 <= i < 6 ==> #[trigger] e.src_mac@[i] == bytes[6 + i],
        e.ethertype as int == bytes[12] as int * 256 + bytes[13] as int,
        e.payload.parsed_from(e.ethertype, bytes.skip(14)),
{
    assert forall|i: int| 0 <= i < 6 implies #[trigger] e.dest_mac@[i] == bytes[i] by {
        assert(e.dest_mac@[i] == bytes.subrange(0, 6)[i]);
    }
    assert forall|i: int| 0 <= i < 6 implies #[trigger] e.src_mac@[i] == bytes[6 + i] by {
        assert(e.src_mac@[i] == bytes.subrange(6, 12)[i]);
    }
    assert(bytes.skip(14) =~= bytes.subrange(14, bytes.len() as int));
}

} // verus!
