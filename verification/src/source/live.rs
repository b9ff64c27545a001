//! The decisions of a live capture: what each event from the capture
//! handle leads to, and the texts that the capture reports.
//!
//! The capture itself (the device, the handle, the channel to the user
//! interface, the stop flag) is driven by the caller, which feeds each event
//! to [`CaptureSession::step`] and performs the action it returns.

use vstd::prelude::*;
use crate::model::packet::{law_summary_starts_with_number, Packet};
use crate::protocols::ethernet::Ethernet;
use crate::text::{dec, dec32, push_dec, push_str};

verus! {

/// A message from the capture to the user interface.
pub enum CaptureMsg {
    Line(String),
    Error(String),
    Ended,
}

/// What the capture handle produced, or that a stop was asked for.
pub enum CaptureEvent {
    /// The stop flag was found set.
    StopRequested,
    /// A frame was captured.
    Frame(Vec<u8>),
    /// The read timed out with no frame.
    TimeoutExpired,
    /// The read failed; the text describes the failure.
    Failed(String),
}

/// What to do next.
pub enum CaptureAction {
    /// Send this message to the user interface, then read on; stop if it
    /// cannot be delivered.
    Send(CaptureMsg),
    /// Read again.
    Continue,
    /// Stop capturing, after reporting the failure if there is one.
    Finish(Option<String>),
}

/// The state of a running capture: how many frames were decoded so far.
pub struct CaptureSession {
    pub count: u32,
}

/// The report of a failed read.
pub open spec fn capture_error_text(detail: Seq<char>) -> Seq<char> {
    "capture error: "@ + detail
}

/// What handling `event` with `count` frames decoded so far comes to: the
/// action and the count after it.
pub open spec fn step_outcome(count: u32, event: CaptureEvent, action: CaptureAction, next: u32) -> bool {
    match event {
        CaptureEvent::StopRequested => {
            &&& action matches CaptureAction::Finish(None)
            &&& next == count
        },
        CaptureEvent::TimeoutExpired => {
            &&& action matches CaptureAction::Continue
            &&& next == count
        },
        CaptureEvent::Failed(detail) => {
            &&& action matches CaptureAction::Finish(Some(m))
            &&& m@ == capture_error_text(detail@)
            &&& next == count
        },
        CaptureEvent::Frame(data) => {
            &&& action matches CaptureAction::Send(CaptureMsg::Line(line))
            &&& exists|p: Packet|
                {
                    &&& p.count == count
                    &&& p.data_length == data@.len() as u32
                    &&& p.ethernet.parsed_from(data@)
                    &&& line@ == p.summary_text()
                }
            &&& next == count + 1
        },
    }
}

impl CaptureSession {
    /// A capture that has decoded nothing yet.
    pub fn new() -> (s: CaptureSession)
        ensures
            s.count == 0,
    {
        CaptureSession { count: 0 }
    }

    /// The event may be handed to `step`: a frame must be decodable and
    /// must leave room to count it.
    pub open spec fn accepts(&self, event: CaptureEvent) -> bool {
        match event {
            CaptureEvent::Frame(data) => self.count < u32::MAX && Ethernet::decodable(data@),
            _ => true,
        }
    }

    /// Decides what an event leads to. A frame is decoded under the current
    /// count, with its length as its data length, and its summary is sent;
    /// the count then goes up by one. A stop request finishes quietly, a
    /// timeout reads again, and a failure finishes with its report.
    pub fn step(&mut self, event: CaptureEvent) -> (action: CaptureAction)
        requires
            old(self).accepts(event),
        ensures
            step_outcome(old(self).count, event, action, final(self).count),
    {
        match event {
            CaptureEvent::StopRequested => CaptureAction::Finish(None),
            CaptureEvent::TimeoutExpired => CaptureAction::Continue,
            CaptureEvent::Failed(detail) => {
                let mut m = String::new();
                push_str(&mut m, "capture error: ");
                push_str(&mut m, detail.as_str());
                CaptureAction::Finish(Some(m))
            },
            CaptureEvent::Frame(data) => {
                let packet = Packet::parse(self.count, data.len() as u32, data.as_slice());
                let line = packet.summary();
                self.count = self.count + 1;
                CaptureAction::Send(CaptureMsg::Line(line))
            },
        }
    }
}

/// Why a capture could not start.
pub enum CaptureFailure {
    /// The list of devices could not be had; the text describes why.
    DeviceList(String),
    /// No device has this index.
    NoDevice(usize),
    /// No capture handle could be made for the device.
    Capture(String),
    /// The capture handle could not be opened.
    Open(String),
}

impl CaptureFailure {
    /// The report of the failure.
    pub open spec fn text(&self) -> Seq<char> {
        match self {
            CaptureFailure::DeviceList(e) => "error getting network devices: "@ + e@,
            CaptureFailure::NoDevice(i) => "no network interface for index "@ + dec(*i as nat),
            CaptureFailure::Capture(e) => "error getting capture: "@ + e@,
            CaptureFailure::Open(e) => "error opening capture (run as Administrator?): "@ + e@,
        }
    }

    /// Renders the report.
    pub fn message(&self) -> (m: String)
        ensures
            m@ == self.text(),
    {
        let mut m = String::new();
        match self {
            CaptureFailure::DeviceList(e) => {
                push_str(&mut m, "error getting network devices: ");
                push_str(&mut m, e.as_str());
            },
            CaptureFailure::NoDevice(i) => {
                push_str(&mut m, "no network interface for index ");
                push_dec(&mut m, *i as u64);
            },
            CaptureFailure::Capture(e) => {
                push_str(&mut m, "error getting capture: ");
                push_str(&mut m, e.as_str());
            },
            CaptureFailure::Open(e) => {
                push_str(&mut m, "error opening capture (run as Administrator?): ");
                push_str(&mut m, e.as_str());
            },
        }
        m
    }
}

/// A network device as the capture library lists it.
pub struct DeviceInfo {
    pub name: String,
    pub desc: Option<String>,
}

/// `#I - NAME - DESCRIPTION`, with `no description` where there is none.
pub open spec fn device_line(i: nat, d: DeviceInfo) -> Seq<char> {
    "#"@ + dec(i) + " - "@ + d.name@ + " - "@ + match d.desc {
        Some(s) => s@,
        None => "no description"@,
    }
}

/// The report when the device list could not be had.
pub open spec fn list_error_text(detail: Seq<char>) -> Seq<char> {
    "error listing network devices: "@ + detail
}

/// The report when a device list could not be had from the capture library.
pub fn list_error(detail: &str) -> (m: String)
    ensures
        m@ == list_error_text(detail@),
{
    let mut m = String::new();
    push_str(&mut m, "error listing network devices: ");
    push_str(&mut m, detail);
    m
}

/// One line per device, numbered from 0; an empty list is an error.
pub fn describe_devices(devices: &Vec<DeviceInfo>) -> (res: Result<Vec<String>, String>)
    ensures
        devices@.len() == 0 ==> (res matches Err(m) && m@
            == "no network devices found for live capture"@),
        devices@.len() > 0 ==> (res matches Ok(lines) && lines@.len() == devices@.len() && (
        forall|i: int| 0 <= i < lines@.len() ==> #[trigger] lines@[i]@ == device_line(i as nat, devices@[i]))),
{
    if devices.len() == 0 {
        let mut m = String::new();
        push_str(&mut m, "no network devices found for live capture");
        return Err(m);
    }
    let mut lines: Vec<String> = Vec::new();
    let mut i: usize = 0;
    while i < devices.len()
        invariant
            i <= devices@.len(),
            lines@.len() == i,
            forall|k: int| 0 <= k < i ==> #[trigger] lines@[k]@ == device_line(k as nat, devices@[k]),
        decreases devices@.len() - i,
    {
        let d = &devices[i];
        let mut line = String::new();
        push_str(&mut line, "#");
        push_dec(&mut line, i as u64);
        push_str(&mut line, " - ");
        push_str(&mut line, d.name.as_str());
        push_str(&mut line, " - ");
        match &d.desc {
            Some(s) => push_str(&mut line, s.as_str()),
            None => push_str(&mut line, "no description"),
        }
        assert(line@ =~= device_line(i as nat, devices@[i as int]));
        lines.push(line);
        i = i + 1;
    }
    Ok(lines)
}

/// The messages that close a capture run: the report of its failure, if it
/// failed, and then always `Ended`.
pub fn closing_messages(outcome: Result<(), String>) -> (v: Vec<CaptureMsg>)
    ensures
        match outcome {
            Ok(()) => v@.len() == 1 && v@[0] is Ended,
            Err(e) => {
                &&& v@.len() == 2
                &&& v@[0] matches CaptureMsg::Error(m) && m@ == e@
                &&& v@[1] is Ended
            },
        },
{
    let mut v: Vec<CaptureMsg> = Vec::new();
    match outcome {
        Ok(()) => {},
        Err(e) => v.push(CaptureMsg::Error(e)),
    }
    v.push(CaptureMsg::Ended);
    v
}

/// Capturing counts the frames and nothing else: the count goes up by one
/// exactly on a frame, each frame is answered with a line that begins with
/// `#` and the frame's number (the count before it), a stop request ends the
/// capture quietly, a failure ends it with its report, and a timeout reads
/// on.
pub proof fn law_capture_counts_frames(count: u32, event: CaptureEvent, action: CaptureAction, next: u32)
    requires
        step_outcome(count, event, action, next),
    ensures
        event is Frame ==> next == count + 1,
        !(event is Frame) ==> next == count,
        event is Frame ==> (action matches CaptureAction::Send(CaptureMsg::Line(line))
            && line@.len() >= dec32(count).len() + 2 && line@.subrange(0, dec32(count).len() + 2int)
            == "#"@ + dec32(count) + seq![' ']),
        event is StopRequested ==> (action matches CaptureAction::Finish(None)),
        event is TimeoutExpired ==> action is Continue,
        event matches CaptureEvent::Failed(d) ==> (action matches CaptureAction::Finish(Some(m))
            && m@ == "capture error: "@ + d@),
{
    if let CaptureEvent::Frame(data) = event {
        let p = choose|p: Packet|
            {
                &&& p.count == count
                &&& p.data_length == data@.len() as u32
                &&& p.ethernet.parsed_from(data@)
                &&& action->Send_0->Line_0@ == p.summary_text()
            };
        law_summary_starts_with_number(p);
    }
}

} // verus!
