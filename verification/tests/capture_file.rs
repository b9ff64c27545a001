use rustygrab::protocols::ethernet::EtherPayload;
use rustygrab::source::pcap_file::{can_read_capture, read_capture, Endian};

fn frame(ethertype: u16, payload: &[u8]) -> Vec<u8> {
    let mut f = vec![0xffu8; 6];
    f.extend_from_slice(&[2, 0, 0, 0, 0, 1]);
    f.extend_from_slice(&ethertype.to_be_bytes());
    f.extend_from_slice(payload);
    f
}

fn global_header(big: bool) -> Vec<u8> {
    let mut h = if big { vec![0xa1, 0xb2, 0xc3, 0xd4] } else { vec![0xd4, 0xc3, 0xb2, 0xa1] };
    h.extend_from_slice(&[0; 20]);
    h
}

fn record(big: bool, data: &[u8], stated_len: u32) -> Vec<u8> {
    let mut r = vec![0u8; 8];
    let len = if big { stated_len.to_be_bytes() } else { stated_len.to_le_bytes() };
    r.extend_from_slice(&len);
    r.extend_from_slice(&len);
    r.extend_from_slice(data);
    r
}

#[test]
fn reads_little_and_big_endian_files_alike() {
    for big in [false, true] {
        let a = frame(0x9000, &[1, 2, 3]);
        let b = frame(0x0800, &{
            let mut ip = vec![0x45, 0, 0, 0, 0, 0, 0, 0, 64, 17, 0, 0, 10, 0, 0, 1, 10, 0, 0, 2];
            ip.extend_from_slice(&[0, 53, 0, 53, 0, 8, 0, 0]);
            ip
        });
        let mut file = global_header(big);
        file.extend(record(big, &a, a.len() as u32));
        file.extend(record(big, &b, b.len() as u32));
        assert!(can_read_capture(&file));
        let result = read_capture("two.pcap", &file).unwrap();
        assert!(result.warning.is_none());
        assert_eq!(result.packets.len(), 2);
        assert_eq!(result.packets[0].count, 0);
        assert_eq!(result.packets[0].data_length, 17);
        assert_eq!(result.packets[1].count, 1);
        assert_eq!(result.packets[1].data_length, 42);
        assert!(matches!(result.packets[1].ethernet.payload, EtherPayload::Ipv4(_)));
        assert_eq!(
            result.packets[1].summary(),
            "#1 10.0.0.1:53 -> 10.0.0.2:53 UDP  42"
        );
    }
}

#[test]
fn truncated_record_stops_with_a_warning() {
    let a = frame(0x9000, &[1, 2, 3]);
    let mut file = global_header(false);
    file.extend(record(false, &a, a.len() as u32));
    file.extend(record(false, &a[..5], 1000));
    let result = read_capture("cut.pcap", &file).unwrap();
    assert_eq!(result.packets.len(), 1);
    assert_eq!(result.warning.as_deref(), Some("invalid packet length: 1000 exceeds file size"));
}

#[test]
fn record_cut_inside_its_header_stops_with_a_warning() {
    let mut file = global_header(true);
    file.extend_from_slice(&[0; 15]);
    let result = read_capture("tail.pcap", &file).unwrap();
    assert_eq!(result.packets.len(), 0);
    assert_eq!(
        result.warning.as_deref(),
        Some("truncated record header: 15 bytes left at end of file")
    );
    let mut file = global_header(false);
    file.extend_from_slice(&[0; 10]);
    let result = read_capture("cut.pcap", &file).unwrap();
    assert!(result.packets.is_empty());
    assert!(result.warning.is_some());
}

#[test]
fn file_ending_with_a_record_has_no_warning() {
    let a = frame(0x9000, &[1, 2, 3]);
    let mut file = global_header(true);
    file.extend(record(true, &a, a.len() as u32));
    let result = read_capture("whole.pcap", &file).unwrap();
    assert_eq!(result.packets.len(), 1);
    assert!(result.warning.is_none());
    let result = read_capture("empty.pcap", &global_header(true)).unwrap();
    assert!(result.packets.is_empty());
    assert!(result.warning.is_none());
}

#[test]
fn too_small_file_is_rejected() {
    let err = read_capture("tiny.pcap", &[0xd4, 0xc3, 0xb2, 0xa1]).err().unwrap();
    assert_eq!(err, "invalid file: tiny.pcap is too small to be a valid file");
}

#[test]
fn unknown_magic_is_rejected() {
    let mut file = vec![0x0a, 0x0d, 0x0d, 0x0a];
    file.extend_from_slice(&[0; 28]);
    let err = read_capture("x.pcapng", &file).err().unwrap();
    assert_eq!(err, "not a valid magic number: 0a0d0d0a");
}

#[test]
fn undecodable_record_is_detected() {
    let mut file = global_header(false);
    file.extend(record(false, &[0u8; 10], 10));
    assert!(!can_read_capture(&file));
}

#[test]
fn byte_orders_read_mirrored_bytes() {
    assert_eq!(Endian::Little.read_u32(&[0x78, 0x56, 0x34, 0x12]), 0x12345678);
    assert_eq!(Endian::Big.read_u32(&[0x12, 0x34, 0x56, 0x78]), 0x12345678);
}

#[test]
fn both_byte_orders_give_the_same_read() {
    let a = frame(0x9000, &[4, 5]);
    let mut reads = Vec::new();
    for big in [false, true] {
        let mut file = global_header(big);
        file.extend(record(big, &a, a.len() as u32));
        file.extend_from_slice(&[0; 5]);
        let r = read_capture("f.pcap", &file).unwrap();
        let summaries: Vec<String> = r.packets.iter().map(|p| p.summary()).collect();
        reads.push((summaries, r.warning));
    }
    assert_eq!(reads[0], reads[1]);
    assert_eq!(reads[0].1.as_deref(), Some("truncated record header: 5 bytes left at end of file"));
}
