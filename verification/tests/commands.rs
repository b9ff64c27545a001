use rustygrab::source::live::{
    closing_messages, describe_devices, CaptureAction, CaptureEvent, CaptureFailure, CaptureMsg, CaptureSession,
    DeviceInfo,
};
use rustygrab::source::pcap_file::read_capture;
use rustygrab::ui::command::{
    capture_started, capture_stopped, help_lines, on_received, parse_index, read_report, respond,
    submit, Command, DrainAction, Received, Reply, Submission, Tone,
};

fn run(line: &str) -> Command {
    match submit(line) {
        Submission::Run { command, .. } => command,
        _ => panic!("expected a command"),
    }
}

#[test]
fn submissions() {
    assert!(matches!(submit("  exit "), Submission::Quit));
    assert!(matches!(submit("quit"), Submission::Quit));
    assert!(matches!(submit(" \t "), Submission::Blank));
    match submit("  read   a.pcap  extra ") {
        Submission::Run { echo, command } => {
            assert_eq!(echo, "read   a.pcap  extra");
            match command {
                Command::Read(Some(p)) => assert_eq!(p, "a.pcap"),
                _ => panic!("expected read with a path"),
            }
        }
        _ => panic!("expected a command"),
    }
    assert!(matches!(run("read"), Command::Read(None)));
    assert!(matches!(run("help"), Command::Help));
    assert!(matches!(run("version"), Command::Version));
    assert!(matches!(run("devices"), Command::Devices));
    match run("frobnicate now") {
        Command::Unknown(c) => assert_eq!(c, "frobnicate"),
        _ => panic!("expected an unknown command"),
    }
}

#[test]
fn index_parsing() {
    assert_eq!(parse_index("3"), Some(3));
    assert_eq!(parse_index("+12"), Some(12));
    assert_eq!(parse_index("007"), Some(7));
    assert_eq!(parse_index(""), None);
    assert_eq!(parse_index("+"), None);
    assert_eq!(parse_index("-1"), None);
    assert_eq!(parse_index("4x"), None);
    assert_eq!(parse_index("99999999999999999999999"), None);
    for s in ["0", "+5", "18446744073709551615", "18446744073709551616", "1 2"] {
        assert_eq!(parse_index(s), s.parse::<usize>().ok(), "{}", s);
    }
}

fn lines(r: Reply) -> Vec<(String, String)> {
    match r {
        Reply::Lines(ls) => ls
            .into_iter()
            .map(|l| {
                let tone = match l.tone {
                    Tone::Plain => "plain",
                    Tone::Dim => "dim",
                    Tone::Error => "error",
                    Tone::Accent => "accent",
                };
                (tone.to_string(), l.text)
            })
            .collect(),
        _ => panic!("expected lines"),
    }
}

#[test]
fn replies() {
    assert_eq!(lines(respond(run("version"), false, "0.1.0")), vec![("dim".to_string(), "rustygrab 0.1.0".to_string())]);
    assert_eq!(lines(respond(run("read"), false, "")), vec![("error".to_string(), "usage: read <file.pcap>".to_string())]);
    assert!(matches!(respond(run("read f.pcap"), false, ""), Reply::ReadFile(p) if p == "f.pcap"));
    assert!(matches!(respond(run("devices"), false, ""), Reply::ListDevices));
    assert!(matches!(respond(run("live 2"), false, ""), Reply::StartCapture(2)));
    assert_eq!(lines(respond(run("live 2"), true, ""))[0].1, "a capture is already running - press esc to stop it");
    assert_eq!(lines(respond(run("live"), false, ""))[0].1, "usage: live <index>");
    assert_eq!(lines(respond(run("live eth0"), false, ""))[0].1, "interface index must be a number - try devices");
    assert_eq!(lines(respond(run("nope"), false, ""))[0], ("error".to_string(), "unknown command: nope (try help)".to_string()));
}

#[test]
fn help_is_aligned() {
    let h = help_lines();
    assert_eq!(h.len(), 6);
    assert_eq!(h[0].text, "read <file.pcap>    decode packets from a capture file");
    assert_eq!(h[5].text, "exit                quit rustygrab");
    assert!(h.iter().all(|l| matches!(l.tone, Tone::Dim)));
}

#[test]
fn read_reports() {
    let err: Result<_, String> = read_capture("tiny.pcap", &[1, 2, 3]);
    let r = read_report("tiny.pcap", &err);
    assert_eq!(r.len(), 1);
    assert_eq!(r[0].text, "invalid file: tiny.pcap is too small to be a valid file");
    let mut file = vec![0xd4, 0xc3, 0xb2, 0xa1];
    file.extend_from_slice(&[0; 20]);
    let mut rec = vec![0u8; 8];
    rec.extend_from_slice(&14u32.to_le_bytes());
    rec.extend_from_slice(&14u32.to_le_bytes());
    rec.extend_from_slice(&[1, 1, 1, 1, 1, 1, 2, 2, 2, 2, 2, 2, 0x12, 0x34]);
    file.extend(rec);
    file.extend_from_slice(&[0; 8]);
    file.extend_from_slice(&[99, 0, 0, 0]);
    file.extend_from_slice(&[0; 4]);
    assert!(rustygrab::source::pcap_file::can_read_capture(&file));
    let ok = read_capture("one.pcap", &file);
    let r = read_report("one.pcap", &ok);
    let texts: Vec<&str> = r.iter().map(|l| l.text.as_str()).collect();
    assert_eq!(
        texts,
        vec![
            "#0 02:02:02:02:02:02 -> 01:01:01:01:01:01 Ethertype: 0x1234 14",
            "invalid packet length: 99 exceeds file size",
            "1 packets from one.pcap",
        ]
    );
}

#[test]
fn capture_session_steps() {
    let mut s = CaptureSession::new();
    assert!(matches!(s.step(CaptureEvent::TimeoutExpired), CaptureAction::Continue));
    let mut f = vec![1u8; 6];
    f.extend_from_slice(&[2; 6]);
    f.extend_from_slice(&[0x12, 0x34, 9]);
    match s.step(CaptureEvent::Frame(f.clone())) {
        CaptureAction::Send(CaptureMsg::Line(l)) => {
            assert_eq!(l, "#0 02:02:02:02:02:02 -> 01:01:01:01:01:01 Ethertype: 0x1234 15")
        }
        _ => panic!("expected a line"),
    }
    match s.step(CaptureEvent::Frame(f)) {
        CaptureAction::Send(CaptureMsg::Line(l)) => assert!(l.starts_with("#1 ")),
        _ => panic!("expected a line"),
    }
    assert_eq!(s.count, 2);
    match s.step(CaptureEvent::Failed("device gone".to_string())) {
        CaptureAction::Finish(Some(m)) => assert_eq!(m, "capture error: device gone"),
        _ => panic!("expected a failure"),
    }
    assert!(matches!(s.step(CaptureEvent::StopRequested), CaptureAction::Finish(None)));
    assert_eq!(capture_started(3), "capturing on interface 3 - esc to stop");
    assert_eq!(capture_stopped(2), "capture stopped - 2 packets");
    assert_eq!(CaptureFailure::NoDevice(7).message(), "no network interface for index 7");
}

#[test]
fn device_listing() {
    assert_eq!(describe_devices(&vec![]).err().unwrap(), "no network devices found for live capture");
    let devs = vec![
        DeviceInfo { name: "eth0".to_string(), desc: Some("Ethernet".to_string()) },
        DeviceInfo { name: "lo".to_string(), desc: None },
    ];
    assert_eq!(
        describe_devices(&devs).unwrap(),
        vec!["#0 - eth0 - Ethernet".to_string(), "#1 - lo - no description".to_string()]
    );
}

#[test]
fn closing_and_draining() {
    let ok = closing_messages(Ok(()));
    assert_eq!(ok.len(), 1);
    assert!(matches!(ok[0], CaptureMsg::Ended));
    let failed = closing_messages(Err("boom".to_string()));
    assert_eq!(failed.len(), 2);
    assert!(matches!(&failed[0], CaptureMsg::Error(e) if e == "boom"));
    assert!(matches!(failed[1], CaptureMsg::Ended));

    let (n, a) = on_received(4, Received::Message(CaptureMsg::Line("#4 x".to_string())));
    assert_eq!(n, 5);
    assert!(matches!(a, DrainAction::Show(l) if l.text == "#4 x" && matches!(l.tone, Tone::Plain)));
    let (n, a) = on_received(5, Received::Message(CaptureMsg::Error("bad".to_string())));
    assert_eq!(n, 5);
    assert!(matches!(a, DrainAction::Show(l) if l.text == "bad" && matches!(l.tone, Tone::Error)));
    assert!(matches!(on_received(5, Received::Message(CaptureMsg::Ended)), (5, DrainAction::Finished)));
    assert!(matches!(on_received(5, Received::Disconnected), (5, DrainAction::Finished)));
    assert!(matches!(on_received(5, Received::Empty), (5, DrainAction::Wait)));
}
