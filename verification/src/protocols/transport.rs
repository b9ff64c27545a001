//! The transport layer, chosen by the protocol number that IPv4 and IPv6 share.

use vstd::prelude::*;
use crate::model::other::Other;
use crate::protocols::icmp::IcmpPacket;
use crate::protocols::icmpv6::Icmpv6Packet;
use crate::protocols::tcp::TcpSegment;
use crate::protocols::udp::UdpDatagram;

verus! {

/// What an IP packet carries.
pub enum Transport {
    Tcp(TcpSegment),
    Udp(UdpDatagram),
    Icmp(IcmpPacket),
    Icmpv6(Icmpv6Packet),
    Other(Other),
}

impl Transport {
    /// The decoder that `protocol` selects can read `bytes`.
    pub open spec fn decodable(protocol: u8, bytes: Seq<u8>) -> bool {
        if protocol == 1 {
            IcmpPacket::decodable(bytes)
        } else if protocol == 6 {
            TcpSegment::decodable(bytes)
        } else if protocol == 17 {
            UdpDatagram::decodable(bytes)
        } else if protocol == 58 {
            Icmpv6Packet::decodable(bytes)
        } else {
            true
        }
    }

    /// `self` is what the decoder that `protocol` selects makes of `bytes`;
    /// an unknown protocol keeps all of the bytes.
    pub open spec fn parsed_from(&self, protocol: u8, bytes: Seq<u8>) -> bool {
        if protocol == 1 {
            self matches Transport::Icmp(p) && p.parsed_from(bytes)
        } else if protocol == 6 {
            self matches Transport::Tcp(p) && p.parsed_from(bytes)
        } else if protocol == 17 {
            self matches Transport::Udp(p) && p.parsed_from(bytes)
        } else if protocol == 58 {
            self matches Transport::Icmpv6(p) && p.parsed_from(bytes)
        } else {
            self matches Transport::Other(p) && p.parsed_from(bytes)
        }
    }

    /// Checks `decodable`.
    pub fn can_parse(protocol: u8, bytes: &[u8]) -> (b: bool)
        ensures
            b == Self::decodable(protocol, bytes@),
    {
        let n = bytes.len();
        if protocol == 1 {
            n >= 2 && ((bytes[0] != 0 && bytes[0] != 8) || n >= 8)
        } else if protocol == 6 {
            n >= 14
        } else if protocol == 17 {
            n >= 6
        } else if protocol == 58 {
            n >= 2 && ((bytes[0] != 128 && bytes[0] != 129) || n >= 8) && ((bytes[0] != 135
                && bytes[0] != 136) || n >= 24)
        } else {
            true
        }
    }

    /// Decodes the transport layer that `protocol` names.
    pub fn parse(protocol: u8, bytes: &[u8]) -> (t: Transport)
        requires
            Self::decodable(protocol, bytes@),
        ensures
            t.parsed_from(protocol, bytes@),
    {
        match protocol {
            1 => Transport::Icmp(IcmpPacket::parse(bytes)),
            6 => Transport::Tcp(TcpSegment::parse(bytes)),
            17 => Transport::Udp(UdpDatagram::parse(bytes)),
            58 => Transport::Icmpv6(Icmpv6Packet::parse(bytes)),
            _ => Transport::Other(Other::parse(bytes)),
        }
    }
}

/// Nothing is dropped: a transport layer whose protocol number no decoder
/// claims keeps all of its bytes.
pub proof fn law_unknown_protocol_kept(t: Transport, protocol: u8, bytes: Seq<u8>)
    requires
        t.parsed_from(protocol, bytes),
        protocol != 1 && protocol != 6 && protocol != 17 && protocol != 58,
    ensures
        t matches Transport::Other(o) && o.other@ == bytes,
{
}

} // verus!
