//! A captured frame, numbered, and its one-line summary.

use vstd::prelude::*;
use crate::model::address::{ipv4_text, ipv6_text, mac_text, push_ipv4, push_ipv6, push_mac};
use crate::protocols::arp::ArpPacket;
use crate::protocols::ethernet::{EtherPayload, Ethernet};
use crate::protocols::ipv4::Ipv4Packet;
use crate::protocols::ipv6::Ipv6Packet;
use crate::protocols::icmp::IcmpBody;
use crate::protocols::icmpv6::Icmpv6Body;
use crate::protocols::tcp::{flags_text, TcpSegment};
use crate::protocols::transport::Transport;
use crate::text::{dec, dec16, dec32, hex16, hex_padded, push_dec16, push_dec32, push_hex_padded, push_str};

verus! {

/// A decoded frame with its position in the capture and its captured length.
pub struct Packet {
    pub count: u32,
    pub data_length: u32,
    pub ethernet: Ethernet,
}

/// The label of an ICMP echo message: `Echo request (seq N)` for type 8,
/// `Echo reply (seq N)` for type 0; none for any other message.
pub open spec fn icmp_label(t: Transport) -> Option<Seq<char>> {
    match t {
        Transport::Icmp(p) => match p.body {
            IcmpBody::Echo { identifier, sequence } => if p.icmp_type == 8 {
                Some("Echo request (seq "@ + dec16(sequence) + ")"@)
            } else if p.icmp_type == 0 {
                Some("Echo reply (seq "@ + dec16(sequence) + ")"@)
            } else {
                None
            },
            IcmpBody::Other => None,
        },
        _ => None,
    }
}

/// The label of an ICMPv6 echo (types 128, 129) or neighbor discovery
/// (types 135, 136) message; none for any other message.
pub open spec fn icmpv6_label(t: Transport) -> Option<Seq<char>> {
    match t {
        Transport::Icmpv6(p) => match p.body {
            Icmpv6Body::Echo { identifier, sequence } => if p.icmp_type == 128 {
                Some("Echo request (seq "@ + dec16(sequence) + ")"@)
            } else if p.icmp_type == 129 {
                Some("Echo reply (seq "@ + dec16(sequence) + ")"@)
            } else {
                None
            },
            Icmpv6Body::Neighbor { target } => if p.icmp_type == 135 {
                Some("Neighbor solicitation (target "@ + ipv6_text(target@) + ")"@)
            } else if p.icmp_type == 136 {
                Some("Neighbor advertisement (target "@ + ipv6_text(target@) + ")"@)
            } else {
                None
            },
            Icmpv6Body::Other => None,
        },
        _ => None,
    }
}

/// Source and destination port of TCP and UDP; zero for anything else.
pub open spec fn ports(t: Transport) -> (u16, u16) {
    match t {
        Transport::Tcp(s) => (s.src_port, s.dest_port),
        Transport::Udp(d) => (d.src_port, d.dest_port),
        _ => (0, 0),
    }
}

/// `TCP`, `UDP`, or `Other`.
pub open spec fn protocol_name(t: Transport) -> Seq<char> {
    match t {
        Transport::Tcp(_) => "TCP"@,
        Transport::Udp(_) => "UDP"@,
        _ => "Other"@,
    }
}

/// The flags list of a TCP segment; empty for anything else.
pub open spec fn flags_part(t: Transport) -> Seq<char> {
    match t {
        Transport::Tcp(s) => flags_text(s.flags),
        _ => seq![],
    }
}

/// The label of `t` if it is an ICMP echo message.
fn echo_label_v4(t: &Transport) -> (label: Option<String>)
    ensures
        match label {
            Some(s) => icmp_label(*t) == Some(s@),
            None => icmp_label(*t) == None::<Seq<char>>,
        },
{
    match t {
        Transport::Icmp(p) => match &p.body {
            IcmpBody::Echo { identifier: _, sequence } => {
                if p.icmp_type == 8 || p.icmp_type == 0 {
                    let mut s = String::new();
                    if p.icmp_type == 8 {
                        push_str(&mut s, "Echo request (seq ");
                    } else {
                        push_str(&mut s, "Echo reply (seq ");
                    }
                    push_dec16(&mut s, *sequence);
                    push_str(&mut s, ")");
                    Some(s)
                } else {
                    None
                }
            },
            IcmpBody::Other => None,
        },
        _ => None,
    }
}

/// The label of `t` if it is an ICMPv6 echo or neighbor discovery message.
fn echo_label_v6(t: &Transport) -> (label: Option<String>)
    ensures
        match label {
            Some(s) => icmpv6_label(*t) == Some(s@),
            None => icmpv6_label(*t) == None::<Seq<char>>,
        },
{
    match t {
        Transport::Icmpv6(p) => match &p.body {
            Icmpv6Body::Echo { identifier: _, sequence } => {
                if p.icmp_type == 128 || p.icmp_type == 129 {
                    let mut s = String::new();
                    if p.icmp_type == 128 {
                        push_str(&mut s, "Echo request (seq ");
                    } else {
                        push_str(&mut s, "Echo reply (seq ");
                    }
                    push_dec16(&mut s, *sequence);
                    push_str(&mut s, ")");
                    Some(s)
                } else {
                    None
                }
            },
            Icmpv6Body::Neighbor { target } => {
                if p.icmp_type == 135 || p.icmp_type == 136 {
                    let mut s = String::new();
                    if p.icmp_type == 135 {
                        push_str(&mut s, "Neighbor solicitation (target ");
                    } else {
                        push_str(&mut s, "Neighbor advertisement (target ");
                    }
                    push_ipv6(&mut s, target);
                    push_str(&mut s, ")");
                    Some(s)
                } else {
                    None
                }
            },
            Icmpv6Body::Other => None,
        },
        _ => None,
    }
}

impl Packet {
    /// `#` and the packet's number.
    pub open spec fn head(&self) -> Seq<char> {
        "#"@ + dec(self.count as nat)
    }

    /// `#N src-mac -> dest-mac Ethertype: 0xTTTT LEN`.
    pub open spec fn link_summary(&self) -> Seq<char> {
        self.head() + " "@ + mac_text(self.ethernet.src_mac@) + " -> "@ + mac_text(
            self.ethernet.dest_mac@,
        ) + " Ethertype: 0x"@ + hex_padded(self.ethernet.ethertype as nat, 4) + " "@ + dec(
            self.data_length as nat,
        )
    }

    /// The one-line summary of the packet.
    pub open spec fn summary_text(&self) -> Seq<char> {
        match self.ethernet.payload {
            EtherPayload::Ipv4(ip) => match icmp_label(ip.transport) {
                Some(label) => self.head() + " "@ + ipv4_text(ip.src_ip) + " -> "@ + ipv4_text(
                    ip.dest_ip,
                ) + " ICMP "@ + label + " "@ + dec32(self.data_length),
                None => self.head() + " "@ + ipv4_text(ip.src_ip) + ":"@ + dec16(ports(ip.transport).0) + " -> "@ + ipv4_text(ip.dest_ip) + ":"@ + dec16(ports(ip.transport).1)
                    + " "@ + protocol_name(ip.transport) + " "@ + flags_part(ip.transport) + " "@
                    + dec32(self.data_length),
            },
            EtherPayload::Arp(arp) => if arp.opcode == 1 {
                self.head() + " Who has "@ + ipv4_text(arp.target_ip) + "? Tell "@ + ipv4_text(
                    arp.sender_ip,
                )
            } else if arp.opcode == 2 {
                self.head() + " "@ + ipv4_text(arp.sender_ip) + " is at "@ + mac_text(
                    arp.sender_mac@,
                )
            } else {
                self.head() + " Unknown opcode "@ + dec16(arp.opcode)
            },
            EtherPayload::Ipv6(ip) => match icmpv6_label(ip.transport) {
                Some(label) => self.head() + " "@ + ipv6_text(ip.src_address@) + " -> "@
                    + ipv6_text(ip.dst_address@) + " ICMPv6 "@ + label + " "@ + dec32(self.data_length),
                None => self.link_summary(),
            },
            EtherPayload::Other(_) => self.link_summary(),
        }
    }

    /// Decodes a frame; `count` is its position and `data_length` its length.
    pub fn parse(count: u32, data_length: u32, bytes: &[u8]) -> (p: Packet)
        requires
            Ethernet::decodable(bytes@),
        ensures
            p.count == count,
            p.data_length == data_length,
            p.ethernet.parsed_from(bytes@),
    {
        Packet { count: count, data_length: data_length, ethernet: Ethernet::parse(bytes) }
    }

    /// Renders a MAC address as `aa:bb:cc:dd:ee:ff`.
    pub fn format_mac(mac: &[u8; 6]) -> (s: String)
        ensures
            s@ == mac_text(mac@),
    {
        let mut s = String::new();
        push_mac(&mut s, mac);
        s
    }

    /// Appends `src:port -> dst:port PROTO FLAGS LEN` for an IPv4 packet that
    /// is not an echo message.
    fn push_ports_line(out: &mut String, ip: &Ipv4Packet, data_length: u32)
        ensures
            final(out)@ == old(out)@ + " "@ + ipv4_text(ip.src_ip) + ":"@ + dec16(
                ports(ip.transport).0,
            ) + " -> "@ + ipv4_text(ip.dest_ip) + ":"@ + dec16(ports(ip.transport).1) + " "@
                + protocol_name(ip.transport) + " "@ + flags_part(ip.transport) + " "@ + dec32(
                data_length,
            ),
    {
        let (src_port, dest_port, name) = match &ip.transport {
            Transport::Tcp(seg) => (seg.src_port, seg.dest_port, "TCP"),
            Transport::Udp(d) => (d.src_port, d.dest_port, "UDP"),
            _ => (0u16, 0u16, "Other"),
        };
        push_str(out, " ");
        push_ipv4(out, ip.src_ip);
        push_str(out, ":");
        push_dec16(out, src_port);
        push_str(out, " -> ");
        push_ipv4(out, ip.dest_ip);
        push_str(out, ":");
        push_dec16(out, dest_port);
        push_str(out, " ");
        push_str(out, name);
        push_str(out, " ");
        match &ip.transport {
            Transport::Tcp(seg) => {
                let flags = TcpSegment::format_flags(seg.flags);
                push_str(out, flags.as_str());
            },
            _ => {},
        }
        push_str(out, " ");
        push_dec32(out, data_length);
        assert(out@ =~= old(out)@ + " "@ + ipv4_text(ip.src_ip) + ":"@ + dec16(
            ports(ip.transport).0,
        ) + " -> "@ + ipv4_text(ip.dest_ip) + ":"@ + dec16(ports(ip.transport).1) + " "@
            + protocol_name(ip.transport) + " "@ + flags_part(ip.transport) + " "@ + dec32(
            data_length,
        ));
    }

    /// Appends the sentence for an ARP packet.
    fn push_arp_line(out: &mut String, arp: &ArpPacket)
        ensures
            final(out)@ == old(out)@ + (if arp.opcode == 1 {
                " Who has "@ + ipv4_text(arp.target_ip) + "? Tell "@ + ipv4_text(arp.sender_ip)
            } else if arp.opcode == 2 {
                " "@ + ipv4_text(arp.sender_ip) + " is at "@ + mac_text(arp.sender_mac@)
            } else {
                " Unknown opcode "@ + dec16(arp.opcode)
            }),
    {
        if arp.opcode == 1 {
            push_str(out, " Who has ");
            push_ipv4(out, arp.target_ip);
            push_str(out, "? Tell ");
            push_ipv4(out, arp.sender_ip);
        } else if arp.opcode == 2 {
            push_str(out, " ");
            push_ipv4(out, arp.sender_ip);
            push_str(out, " is at ");
            push_mac(out, &arp.sender_mac);
        } else {
            push_str(out, " Unknown opcode ");
            push_dec16(out, arp.opcode);
        }
    }

    /// Appends the link-layer line: MAC addresses, EtherType and length.
    fn push_link_line(&self, out: &mut String)
        ensures
            final(out)@ == old(out)@ + " "@ + mac_text(self.ethernet.src_mac@) + " -> "@
                + mac_text(self.ethernet.dest_mac@) + " Ethertype: 0x"@ + hex_padded(
                self.ethernet.ethertype as nat,
                4,
            ) + " "@ + dec(self.data_length as nat),
    {
        push_str(out, " ");
        push_mac(out, &self.ethernet.src_mac);
        push_str(out, " -> ");
        push_mac(out, &self.ethernet.dest_mac);
        push_str(out, " Ethertype: 0x");
        push_hex_padded(out, self.ethernet.ethertype as u64, 4);
        push_str(out, " ");
        push_dec32(out, self.data_length);
        assert(out@ =~= old(out)@ + " "@ + mac_text(self.ethernet.src_mac@) + " -> "@ + mac_text(
            self.ethernet.dest_mac@,
        ) + " Ethertype: 0x"@ + hex_padded(self.ethernet.ethertype as nat, 4) + " "@ + dec(
            self.data_length as nat,
        ));
    }

    /// The one-line summary of the packet.
    pub fn summary(&self) -> (s: String)
        ensures
            s@ == self.summary_text(),
    {
        let mut s = String::new();
        push_str(&mut s, "#");
        push_dec32(&mut s, self.count);
        match &self.ethernet.payload {
            EtherPayload::Ipv4(ip) => match echo_label_v4(&ip.transport) {
                Some(label) => {
                    push_str(&mut s, " ");
                    push_ipv4(&mut s, ip.src_ip);
                    push_str(&mut s, " -> ");
                    push_ipv4(&mut s, ip.dest_ip);
                    push_str(&mut s, " ICMP ");
                    push_str(&mut s, label.as_str());
                    push_str(&mut s, " ");
                    push_dec32(&mut s, self.data_length);
                },
                None => {
                    Self::push_ports_line(&mut s, ip, self.data_length);
                },
            },
            EtherPayload::Arp(arp) => {
                Self::push_arp_line(&mut s, arp);
            },
            EtherPayload::Ipv6(ip) => match echo_label_v6(&ip.transport) {
                Some(label) => {
                    push_str(&mut s, " ");
                    push_ipv6(&mut s, &ip.src_address);
                    push_str(&mut s, " -> ");
                    push_ipv6(&mut s, &ip.dst_address);
                    push_str(&mut s, " ICMPv6 ");
                    push_str(&mut s, label.as_str());
                    push_str(&mut s, " ");
                    push_dec32(&mut s, self.data_length);
                },
                None => {
                    self.push_link_line(&mut s);
                },
            },
            EtherPayload::Other(_) => {
                self.push_link_line(&mut s);
            },
        }
        assert(s@ =~= self.summary_text());
        s
    }
}

/// The summary of an IPv4 TCP segment: `#N SRC:SPORT -> DST:DPORT TCP
/// FLAGS LEN`, with the segment's own ports and flags.
pub proof fn law_summary_tcp(p: Packet)
    requires
        p.ethernet.payload matches EtherPayload::Ipv4(ip) && ip.transport is Tcp,
    ensures
        ({
            let ip = p.ethernet.payload->Ipv4_0;
            let seg = ip.transport->Tcp_0;
            p.summary_text() == "#"@ + dec32(p.count) + " "@ + ipv4_text(ip.src_ip) + ":"@ + dec16(
                seg.src_port,
            ) + " -> "@ + ipv4_text(ip.dest_ip) + ":"@ + dec16(seg.dest_port) + " "@ + "TCP"@
                + " "@ + flags_text(seg.flags) + " "@ + dec32(p.data_length)
        }),
{
}

/// The summary of an IPv4 UDP datagram: `#N SRC:SPORT -> DST:DPORT UDP  LEN`,
/// with the datagram's own ports and no flags.
pub proof fn law_summary_udp(p: Packet)
    requires
        p.ethernet.payload matches EtherPayload::Ipv4(ip) && ip.transport is Udp,
    ensures
        ({
            let ip = p.ethernet.payload->Ipv4_0;
            let d = ip.transport->Udp_0;
            p.summary_text() == "#"@ + dec32(p.count) + " "@ + ipv4_text(ip.src_ip) + ":"@ + dec16(
                d.src_port,
            ) + " -> "@ + ipv4_text(ip.dest_ip) + ":"@ + dec16(d.dest_port) + " "@ + "UDP"@ + " "@
                + " "@ + dec32(p.data_length)
        }),
{
    assert(flags_part(p.ethernet.payload->Ipv4_0.transport) == Seq::<char>::empty());
}

/// Only TCP and UDP supply ports: any other IPv4 transport that is not an
/// ICMP echo message is shown with port 0 on both ends, as `Other`, with no
/// flags: `#N SRC:0 -> DST:0 Other  LEN`.
pub proof fn law_summary_other_transport(p: Packet)
    requires
        p.ethernet.payload matches EtherPayload::Ipv4(ip) && !(ip.transport is Tcp)
            && !(ip.transport is Udp) && !(ip.transport matches Transport::Icmp(m) && m.body is Echo
            && (m.icmp_type == 0 || m.icmp_type == 8)),
    ensures
        ({
            let ip = p.ethernet.payload->Ipv4_0;
            p.summary_text() == "#"@ + dec32(p.count) + " "@ + ipv4_text(ip.src_ip) + ":"@ + seq![
                '0',
            ] + " -> "@ + ipv4_text(ip.dest_ip) + ":"@ + seq!['0'] + " "@ + "Other"@ + " "@ + " "@
                + dec32(p.data_length)
        }),
{
    assert(dec16(0u16) =~= seq!['0']);
    assert(flags_part(p.ethernet.payload->Ipv4_0.transport) == Seq::<char>::empty());
}

/// The summary of an ICMP echo message over IPv4: `#N SRC -> DST ICMP Echo
/// request (seq S) LEN` for type 8 and `... Echo reply (seq S) ...` for
/// type 0, S being the message's sequence number.
pub proof fn law_summary_echo_v4(p: Packet)
    requires
        p.ethernet.payload matches EtherPayload::Ipv4(ip) && ip.transport matches Transport::Icmp(m)
            && m.body is Echo && (m.icmp_type == 0 || m.icmp_type == 8),
    ensures
        ({
            let ip = p.ethernet.payload->Ipv4_0;
            let m = ip.transport->Icmp_0;
            let word = if m.icmp_type == 8 {
                "Echo request (seq "@
            } else {
                "Echo reply (seq "@
            };
            p.summary_text() == "#"@ + dec32(p.count) + " "@ + ipv4_text(ip.src_ip) + " -> "@
                + ipv4_text(ip.dest_ip) + " ICMP "@ + (word + dec16(m.body->sequence) + ")"@) + " "@
                + dec32(p.data_length)
        }),
{
}

/// The ARP sentences: `#N Who has TARGET? Tell SENDER` for a request (1),
/// `#N SENDER is at SENDER-MAC` for a reply (2), and `#N Unknown opcode OP`
/// otherwise.
pub proof fn law_summary_arp(p: Packet)
    requires
        p.ethernet.payload is Arp,
    ensures
        ({
            let a = p.ethernet.payload->Arp_0;
            &&& a.opcode == 1 ==> p.summary_text() == "#"@ + dec32(p.count) + " Who has "@
                + ipv4_text(a.target_ip) + "? Tell "@ + ipv4_text(a.sender_ip)
            &&& a.opcode == 2 ==> p.summary_text() == "#"@ + dec32(p.count) + " "@ + ipv4_text(
                a.sender_ip,
            ) + " is at "@ + mac_text(a.sender_mac@)
            &&& a.opcode != 1 && a.opcode != 2 ==> p.summary_text() == "#"@ + dec32(p.count)
                + " Unknown opcode "@ + dec16(a.opcode)
        }),
{
}

/// The summary of an ICMPv6 echo or neighbor message over IPv6: `#N SRC ->
/// DST ICMPv6 LABEL LEN`, with the IPv6 addresses in text form and the
/// label naming the message with its sequence number or target address.
pub proof fn law_summary_echo_v6(p: Packet)
    requires
        p.ethernet.payload matches EtherPayload::Ipv6(ip) && ip.transport matches Transport::Icmpv6(m)
            && ((m.body is Echo && (m.icmp_type == 128 || m.icmp_type == 129)) || (m.body is Neighbor
            && (m.icmp_type == 135 || m.icmp_type == 136))),
    ensures
        ({
            let ip = p.ethernet.payload->Ipv6_0;
            let m = ip.transport->Icmpv6_0;
            let label = if m.icmp_type == 128 {
                "Echo request (seq "@ + dec16(m.body->sequence) + ")"@
            } else if m.icmp_type == 129 {
                "Echo reply (seq "@ + dec16(m.body->sequence) + ")"@
            } else if m.icmp_type == 135 {
                "Neighbor solicitation (target "@ + ipv6_text(m.body->target@) + ")"@
            } else {
                "Neighbor advertisement (target "@ + ipv6_text(m.body->target@) + ")"@
            };
            p.summary_text() == "#"@ + dec32(p.count) + " "@ + ipv6_text(ip.src_address@) + " -> "@
                + ipv6_text(ip.dst_address@) + " ICMPv6 "@ + label + " "@ + dec32(p.data_length)
        }),
{
}

/// Every other frame (not IPv4, not ARP, and over IPv6 only the ICMPv6
/// echo and neighbor messages) is shown by its link layer: `#N SRC-MAC ->
/// DEST-MAC Ethertype: 0xTTTT LEN`.
pub proof fn law_summary_link(p: Packet)
    requires
        !(p.ethernet.payload is Ipv4),
        !(p.ethernet.payload is Arp),
        !(p.ethernet.payload matches EtherPayload::Ipv6(ip) && ip.transport matches Transport::Icmpv6(
            m,
        ) && ((m.body is Echo && (m.icmp_type == 128 || m.icmp_type == 129)) || (m.body is Neighbor
            && (m.icmp_type == 135 || m.icmp_type == 136)))),
    ensures
        p.summary_text() == "#"@ + dec32(p.count) + " "@ + mac_text(p.ethernet.src_mac@) + " -> "@
            + mac_text(p.ethernet.dest_mac@) + " Ethertype: 0x"@ + hex16(p.ethernet.ethertype) + " "@
            + dec32(p.data_length),
{
}

proof fn lemma_starts_with(t: Seq<char>, h: Seq<char>, r: Seq<char>)
    requires
        t == h + r,
        r.len() > 0,
        r[0] == ' ',
    ensures
        t.len() >= h.len() + 1,
        t.subrange(0, h.len() + 1int) == h + seq![' '],
{
    assert(t.subrange(0, h.len() + 1int) =~= h + seq![' ']);
}

/// Every summary begins with the packet's number: `#`, the number in
/// decimal, and a space.
#[verifier::rlimit(50)]
pub proof fn law_summary_starts_with_number(p: Packet)
    ensures
        p.summary_text().len() >= dec32(p.count).len() + 2,
        p.summary_text().subrange(0, dec32(p.count).len() + 2int) == "#"@ + dec32(p.count) + seq![' '],
{
    reveal_strlit("#");
    reveal_strlit(" ");
    reveal_strlit(" Who has ");
    reveal_strlit(" Unknown opcode ");
    let h = "#"@ + dec32(p.count);
    let t = p.summary_text();
    let r = t.subrange(h.len() as int, t.len() as int);
    assert(t.len() > h.len() && t.subrange(0, h.len() as int) == h && t[h.len() as int] == ' ') by {
        match p.ethernet.payload {
            EtherPayload::Arp(a) => {
                if a.opcode == 1 {
                    assert(t =~= h + (" Who has "@ + ipv4_text(a.target_ip) + "? Tell "@ + ipv4_text(a.sender_ip)));
                } else if a.opcode == 2 {
                    assert(t =~= h + (" "@ + ipv4_text(a.sender_ip) + " is at "@ + mac_text(a.sender_mac@)));
                } else {
                    assert(t =~= h + (" Unknown opcode "@ + dec16(a.opcode)));
                }
            },
            _ => {
                lemma_summary_space_after_head(p);
            },
        }
    }
    assert(t =~= h + r);
    lemma_starts_with(t, h, r);
}

proof fn lemma_summary_space_after_head(p: Packet)
    requires
        !(p.ethernet.payload is Arp),
    ensures
        ({
            let h = "#"@ + dec32(p.count);
            let t = p.summary_text();
            t.len() > h.len() && t.subrange(0, h.len() as int) == h && t[h.len() as int] == ' '
        }),
{
    reveal_strlit("#");
    reveal_strlit(" ");
    let h = "#"@ + dec32(p.count);
    let t = p.summary_text();
    let r = t.subrange(h.len() + 1int, t.len() as int);
    assert(t =~= h + " "@ + r);
}

} // verus!
