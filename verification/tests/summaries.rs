use rustygrab::model::packet::Packet;
use rustygrab::protocols::ethernet::{EtherPayload, Ethernet};
use rustygrab::protocols::icmp::IcmpBody;
use rustygrab::protocols::icmpv6::Icmpv6Body;
use rustygrab::protocols::tcp::TcpSegment;
use rustygrab::protocols::transport::Transport;

const HOST_MAC: [u8; 6] = [0x00, 0x1b, 0x21, 0x3a, 0x4f, 0x10];
const ROUTER_MAC: [u8; 6] = [0xa0, 0x91, 0xca, 0xfe, 0x41, 0x31];

fn ethernet(dest: [u8; 6], src: [u8; 6], ethertype: u16, payload: &[u8]) -> Vec<u8> {
    let mut f = Vec::new();
    f.extend_from_slice(&dest);
    f.extend_from_slice(&src);
    f.extend_from_slice(&ethertype.to_be_bytes());
    f.extend_from_slice(payload);
    f
}

fn ipv4(protocol: u8, src: [u8; 4], dst: [u8; 4], payload: &[u8]) -> Vec<u8> {
    let mut h = vec![0x45, 0, 0, 0, 0, 0, 0, 0, 64, protocol, 0, 0];
    h.extend_from_slice(&src);
    h.extend_from_slice(&dst);
    h.extend_from_slice(payload);
    h
}

fn ipv6(next_header: u8, src: [u8; 16], dst: [u8; 16], payload: &[u8]) -> Vec<u8> {
    let mut h = vec![0x60, 0, 0, 0];
    h.extend_from_slice(&(payload.len() as u16).to_be_bytes());
    h.push(next_header);
    h.push(255);
    h.extend_from_slice(&src);
    h.extend_from_slice(&dst);
    h.extend_from_slice(payload);
    h
}

fn tcp(src_port: u16, dest_port: u16, flags: u8) -> Vec<u8> {
    let mut t = Vec::new();
    t.extend_from_slice(&src_port.to_be_bytes());
    t.extend_from_slice(&dest_port.to_be_bytes());
    t.extend_from_slice(&[0, 0, 0, 1, 0, 0, 0, 0, 0x50, flags, 0xff, 0xff, 0, 0, 0, 0]);
    t
}

fn link_local(last: u8) -> [u8; 16] {
    let mut a = [0u8; 16];
    a[0] = 0xfe;
    a[1] = 0x80;
    a[15] = last;
    a
}

fn arp(opcode: u16, sender_mac: [u8; 6], sender_ip: [u8; 4], target_ip: [u8; 4]) -> Vec<u8> {
    let mut a = vec![0, 1, 0x08, 0x00, 6, 4];
    a.extend_from_slice(&opcode.to_be_bytes());
    a.extend_from_slice(&sender_mac);
    a.extend_from_slice(&sender_ip);
    a.extend_from_slice(&[0; 6]);
    a.extend_from_slice(&target_ip);
    a
}

#[test]
fn tcp_summary_lists_ports_and_flags() {
    let frame = ethernet(
        ROUTER_MAC,
        HOST_MAC,
        0x0800,
        &ipv4(6, [192, 168, 1, 20], [93, 184, 216, 34], &tcp(59166, 80, 0x18)),
    );
    assert!(Ethernet::can_parse(&frame));
    let p = Packet::parse(12, 400, &frame);
    assert_eq!(p.summary(), "#12 192.168.1.20:59166 -> 93.184.216.34:80 TCP [\"PSH\", \"ACK\"] 400");
    let p = Packet::parse(13, 1466, &ethernet(
        HOST_MAC,
        ROUTER_MAC,
        0x0800,
        &ipv4(6, [93, 184, 216, 34], [192, 168, 1, 20], &tcp(80, 59166, 0x10)),
    ));
    assert_eq!(p.summary(), "#13 93.184.216.34:80 -> 192.168.1.20:59166 TCP [\"ACK\"] 1466");
}

#[test]
fn icmp_echo_summaries() {
    let request = [8, 0, 0x12, 0x34, 0x00, 0x01, 0x00, 0x03, 0xaa, 0xbb];
    let frame = ethernet(ROUTER_MAC, HOST_MAC, 0x0800, &ipv4(1, [192, 168, 1, 20], [8, 8, 8, 8], &request));
    let p = Packet::parse(14, 74, &frame);
    assert_eq!(p.summary(), "#14 192.168.1.20 -> 8.8.8.8 ICMP Echo request (seq 3) 74");
    let reply = [0, 0, 0x12, 0x34, 0x00, 0x01, 0x00, 0x03];
    let frame = ethernet(HOST_MAC, ROUTER_MAC, 0x0800, &ipv4(1, [8, 8, 8, 8], [192, 168, 1, 20], &reply));
    let p = Packet::parse(15, 74, &frame);
    assert_eq!(p.summary(), "#15 8.8.8.8 -> 192.168.1.20 ICMP Echo reply (seq 3) 74");
    match &p.ethernet.payload {
        EtherPayload::Ipv4(ip) => match &ip.transport {
            Transport::Icmp(m) => match m.body {
                IcmpBody::Echo { identifier, sequence } => {
                    assert_eq!(identifier, 1);
                    assert_eq!(sequence, 3);
                }
                IcmpBody::Other => panic!("expected an echo body"),
            },
            _ => panic!("expected ICMP"),
        },
        _ => panic!("expected IPv4"),
    }
}

#[test]
fn other_icmp_and_udp_use_the_port_line() {
    let unreachable = [3, 1, 0, 0];
    let frame = ethernet(ROUTER_MAC, HOST_MAC, 0x0800, &ipv4(1, [10, 0, 0, 1], [10, 0, 0, 2], &unreachable));
    let p = Packet::parse(0, 60, &frame);
    assert_eq!(p.summary(), "#0 10.0.0.1:0 -> 10.0.0.2:0 Other  60");
    let udp = [0x00, 0x35, 0xc0, 0x01, 0x00, 0x08, 0, 0];
    let frame = ethernet(ROUTER_MAC, HOST_MAC, 0x0800, &ipv4(17, [10, 0, 0, 1], [10, 0, 0, 2], &udp));
    let p = Packet::parse(1, 62, &frame);
    assert_eq!(p.summary(), "#1 10.0.0.1:53 -> 10.0.0.2:49153 UDP  62");
}

#[test]
fn arp_sentences() {
    let who_has = ethernet([0xff; 6], HOST_MAC, 0x0806, &arp(1, HOST_MAC, [192, 168, 1, 20], [192, 168, 1, 1]));
    assert_eq!(Packet::parse(16, 42, &who_has).summary(), "#16 Who has 192.168.1.1? Tell 192.168.1.20");
    let is_at = ethernet(HOST_MAC, ROUTER_MAC, 0x0806, &arp(2, ROUTER_MAC, [192, 168, 1, 1], [192, 168, 1, 20]));
    assert_eq!(Packet::parse(17, 42, &is_at).summary(), "#17 192.168.1.1 is at a0:91:ca:fe:41:31");
    let odd = ethernet(HOST_MAC, ROUTER_MAC, 0x0806, &arp(9, ROUTER_MAC, [1, 2, 3, 4], [5, 6, 7, 8]));
    assert_eq!(Packet::parse(18, 42, &odd).summary(), "#18 Unknown opcode 9");
}

#[test]
fn icmpv6_neighbor_solicitation_summary() {
    let mut ns = vec![135, 0, 0, 0, 0, 0, 0, 0];
    ns.extend_from_slice(&link_local(0x42));
    let frame = ethernet(ROUTER_MAC, HOST_MAC, 0x86DD, &ipv6(58, link_local(1), link_local(0x42), &ns));
    assert!(Ethernet::can_parse(&frame));
    let p = Packet::parse(18, 86, &frame);
    assert_eq!(p.summary(), "#18 fe80::1 -> fe80::42 ICMPv6 Neighbor solicitation (target fe80::42) 86");
    match &p.ethernet.payload {
        EtherPayload::Ipv6(ip) => match &ip.transport {
            Transport::Icmpv6(m) => match m.body {
                Icmpv6Body::Neighbor { target } => assert_eq!(target, link_local(0x42)),
                _ => panic!("expected a neighbor body"),
            },
            _ => panic!("expected ICMPv6"),
        },
        _ => panic!("expected IPv6"),
    }
}

#[test]
fn icmpv6_echo_and_other_ipv6() {
    let echo = [129, 0, 0, 0, 0, 7, 0, 9];
    let frame = ethernet(ROUTER_MAC, HOST_MAC, 0x86DD, &ipv6(58, link_local(1), link_local(2), &echo));
    assert_eq!(Packet::parse(2, 70, &frame).summary(), "#2 fe80::1 -> fe80::2 ICMPv6 Echo reply (seq 9) 70");
    let frame = ethernet(ROUTER_MAC, HOST_MAC, 0x86DD, &ipv6(6, link_local(1), link_local(2), &tcp(1, 2, 0x02)));
    assert_eq!(
        Packet::parse(3, 94, &frame).summary(),
        "#3 00:1b:21:3a:4f:10 -> a0:91:ca:fe:41:31 Ethertype: 0x86dd 94"
    );
}

#[test]
fn ipv6_addresses_compress_the_longest_zero_run() {
    let mut a = [0u8; 16];
    a[0] = 0x20;
    a[1] = 0x01;
    a[2] = 0x0d;
    a[3] = 0xb8;
    a[15] = 1;
    let mut b = a;
    b[7] = 1; // 2001:db8:0:1:0:0:0:1
    let echo = [128, 0, 0, 0, 0, 7, 0, 9];
    let frame = ethernet(ROUTER_MAC, HOST_MAC, 0x86DD, &ipv6(58, a, b, &echo));
    assert_eq!(
        Packet::parse(4, 70, &frame).summary(),
        "#4 2001:db8::1 -> 2001:db8:0:1::1 ICMPv6 Echo request (seq 9) 70"
    );
    let zero = [0u8; 16];
    let mut single = [0x11u8; 16];
    single[4] = 0;
    single[5] = 0; // 1111:1111:0:1111:...
    let frame = ethernet(ROUTER_MAC, HOST_MAC, 0x86DD, &ipv6(58, zero, single, &echo));
    assert_eq!(
        Packet::parse(5, 70, &frame).summary(),
        "#5 :: -> 1111:1111:0:1111:1111:1111:1111:1111 ICMPv6 Echo request (seq 9) 70"
    );
}

#[test]
fn unknown_ethertype_keeps_its_bytes() {
    let frame = ethernet(ROUTER_MAC, HOST_MAC, 0x88cc, &[1, 2, 3]);
    let p = Packet::parse(7, 17, &frame);
    match &p.ethernet.payload {
        EtherPayload::Other(o) => assert_eq!(o.other, vec![1, 2, 3]),
        _ => panic!("expected raw bytes"),
    }
    assert_eq!(p.summary(), "#7 00:1b:21:3a:4f:10 -> a0:91:ca:fe:41:31 Ethertype: 0x88cc 17");
}

#[test]
fn flags_text() {
    assert_eq!(TcpSegment::format_flags(0), "[]");
    assert_eq!(TcpSegment::format_flags(0x02), "[\"SYN\"]");
    assert_eq!(TcpSegment::format_flags(0x12), "[\"SYN\", \"ACK\"]");
    assert_eq!(
        TcpSegment::format_flags(0xff),
        "[\"FIN\", \"SYN\", \"RST\", \"PSH\", \"ACK\", \"URG\", \"ECE\", \"CWR\"]"
    );
}

#[test]
fn mac_text() {
    assert_eq!(Packet::format_mac(&[0, 0x0a, 0xff, 0x10, 1, 0xbc]), "00:0a:ff:10:01:bc");
}

#[test]
fn short_frames_are_not_decodable() {
    assert!(!Ethernet::can_parse(&[0u8; 13]));
    let short_tcp = ethernet(ROUTER_MAC, HOST_MAC, 0x0800, &ipv4(6, [1, 1, 1, 1], [2, 2, 2, 2], &[0; 13]));
    assert!(!Ethernet::can_parse(&short_tcp));
    let mut bad_ihl = ipv4(17, [1, 1, 1, 1], [2, 2, 2, 2], &[]);
    bad_ihl[0] = 0x4f; // 60-byte header in a 20-byte packet
    assert!(!Ethernet::can_parse(&ethernet(ROUTER_MAC, HOST_MAC, 0x0800, &bad_ihl)));
    assert!(Ethernet::can_parse(&ethernet(ROUTER_MAC, HOST_MAC, 0x1234, &[])));
}
