use rustygrab::model::packet::Packet;
use rustygrab::protocols::ethernet::EtherPayload;
use rustygrab::protocols::transport::Transport;
use rustygrab::ui::command::{capture_started, parse_index};
use rustygrab::ui::keys::{key_action, Key, KeyAction};
use rustygrab::ui::layout::{bottom_padding, place_line, Placement};

fn ipv6_frame(src: [u8; 16], dst: [u8; 16], next_header: u8, payload: &[u8]) -> Vec<u8> {
    let mut f = vec![0u8; 12];
    f.extend_from_slice(&[0x86, 0xdd, 0x60, 0, 0, 0, 0, payload.len() as u8, next_header, 64]);
    f.extend_from_slice(&src);
    f.extend_from_slice(&dst);
    f.extend_from_slice(payload);
    f
}

fn groups(g: [u16; 8]) -> [u8; 16] {
    let mut a = [0u8; 16];
    for (i, v) in g.iter().enumerate() {
        a[2 * i..2 * i + 2].copy_from_slice(&v.to_be_bytes());
    }
    a
}

#[test]
fn tie_between_zero_runs_compresses_the_leftmost() {
    let echo = [128, 0, 0, 0, 0, 0, 0, 1];
    let a = groups([1, 0, 0, 1, 0, 0, 1, 1]);
    let b = groups([1, 0, 1, 0, 0, 0, 1, 1]);
    let frame = ipv6_frame(a, b, 58, &echo);
    assert_eq!(
        Packet::parse(0, 1, &frame).summary(),
        "#0 1::1:0:0:1:1 -> 1:0:1::1:1 ICMPv6 Echo request (seq 1) 1"
    );
}

#[test]
fn unknown_next_header_keeps_all_bytes() {
    let frame = ipv6_frame([0; 16], [0; 16], 50, &[9, 8, 7]);
    let p = Packet::parse(0, 57, &frame);
    match &p.ethernet.payload {
        EtherPayload::Ipv6(ip) => match &ip.transport {
            Transport::Other(o) => assert_eq!(o.other, vec![9, 8, 7]),
            _ => panic!("expected raw bytes"),
        },
        _ => panic!("expected IPv6"),
    }
}

#[test]
fn reported_index_reads_back() {
    for i in [0usize, 7, 42, 65535] {
        let text = capture_started(i);
        let number = text.split(' ').nth(3).unwrap();
        assert_eq!(parse_index(number), Some(i));
    }
}

#[test]
fn layout_placement() {
    assert_eq!(bottom_padding(40), 27);
    assert_eq!(bottom_padding(10), 0);
    assert!(matches!(place_line(9, 40), (Placement::At(9), 10)));
    assert!(matches!(place_line(35, 40), (Placement::At(35), 36)));
    assert!(matches!(place_line(36, 40), (Placement::Scroll, 36)));
    assert!(matches!(place_line(0, 3), (Placement::At(0), 1)));
}

#[test]
fn key_presses() {
    assert!(matches!(key_action(Key::Interrupt, true), KeyAction::StopCapture));
    assert!(matches!(key_action(Key::Interrupt, false), KeyAction::Quit));
    assert!(matches!(key_action(Key::Escape, true), KeyAction::StopCapture));
    assert!(matches!(key_action(Key::Escape, false), KeyAction::Ignore));
    assert!(matches!(key_action(Key::Char('x'), false), KeyAction::Insert('x')));
    assert!(matches!(key_action(Key::Enter, true), KeyAction::Submit));
    assert!(matches!(key_action(Key::Backspace, true), KeyAction::DeleteBack));
}
