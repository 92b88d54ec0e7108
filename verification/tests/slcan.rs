//! The SLCAN text form of a frame, and the bridge.

use usbcan_2eu::attach::{Attach, AttachAction, AttachProgress, AttachReply};
use usbcan_2eu::protocol::{pack_frame, parse_rx_chunk, parse_tx_ack};
use usbcan_2eu::slcan::line::push_frame;
use usbcan_2eu::slcan::pty::{is_disconnected, read_nonblocking, FaultKind, PtyFault};
use usbcan_2eu::slcan::{
    hex_digit, hex_value, parse_hex, parse_slcan_frame, push_hex, BridgeAction, BridgeStep,
    SlcanBridge,
};
use usbcan_2eu::transfer::UsbFault;
use usbcan_2eu::{Bitrate, CanFrame, ChannelMode, CtrlResp, Device, Error, RxChunk, TxAck};

#[test]
fn parse_standard_data_frame() {
    let f = parse_slcan_frame(b"t1238DEADBEEF01020304").unwrap();
    assert_eq!(f.id, 0x123);
    assert!(!f.extended);
    assert_eq!(f.dlc, 8);
    assert_eq!(
        f.payload(),
        &[0xde, 0xad, 0xbe, 0xef, 0x01, 0x02, 0x03, 0x04]
    );
}

#[test]
fn emitted_text_parses_back_to_the_same_frame() {
    for sent in [
        CanFrame::new(0x123, false, &[0xde, 0xad]),
        CanFrame::new(0x1abc_def0, true, &[1, 2, 3, 4, 5, 6, 7, 8]),
        CanFrame::new(0x000, false, &[]),
        CanFrame::new_remote(0x7ff, false, 4),
        CanFrame::new_remote(0x1fff_ffff, true, 0),
    ] {
        let mut out = Vec::new();
        let tag = match (sent.extended, sent.remote) {
            (false, false) => b't',
            (true, false) => b'T',
            (false, true) => b'r',
            (true, true) => b'R',
        };
        out.push(tag);
        push_hex(&mut out, sent.id, if sent.extended { 8 } else { 3 });
        out.push(hex_digit(sent.dlc));
        if !sent.remote {
            for byte in sent.payload() {
                out.push(hex_digit(byte >> 4));
                out.push(hex_digit(byte & 0x0f));
            }
        }
        let parsed = parse_slcan_frame(&out).expect("round trip");
        assert_eq!(parsed.id, sent.id);
        assert_eq!(parsed.extended, sent.extended);
        assert_eq!(parsed.remote, sent.remote);
        assert_eq!(parsed.dlc, sent.dlc);
        assert_eq!(parsed.payload(), sent.payload());
    }
}

#[test]
fn parse_standard_frame_with_exact_payload() {
    let f = parse_slcan_frame(b"t1232AABB").unwrap();
    assert_eq!(f.id, 0x123);
    assert_eq!(f.payload(), &[0xaa, 0xbb]);
}

#[test]
fn parse_extended_frame() {
    let f = parse_slcan_frame(b"T1ABCDEF0100").unwrap();
    assert_eq!(f.id, 0x1abc_def0);
    assert!(f.extended);
    assert_eq!(f.dlc, 1);
    assert_eq!(f.payload(), &[0x00]);
}

#[test]
fn parse_remote_frames() {
    let f = parse_slcan_frame(b"r1234").unwrap();
    assert!(f.remote);
    assert_eq!(f.dlc, 4);
    let f = parse_slcan_frame(b"R1FFFFFFF8").unwrap();
    assert!(f.remote && f.extended);
    assert_eq!(f.dlc, 8);
}

#[test]
fn reject_malformed_input() {
    assert!(parse_slcan_frame(b"t12").is_none()); // truncated
    assert!(parse_slcan_frame(b"t1239").is_none()); // dlc 9
    assert!(parse_slcan_frame(b"t1232AA").is_none()); // payload short
    assert!(parse_slcan_frame(b"tZZZ0").is_none()); // bad hex
    assert!(parse_slcan_frame(b"x1230").is_none()); // unknown tag
}

#[test]
fn hex_helpers() {
    let mut out = Vec::new();
    push_hex(&mut out, 0x1ab, 3);
    assert_eq!(out, b"1AB");
    out.clear();
    push_hex(&mut out, 0x1abc_def0, 8);
    assert_eq!(out, b"1ABCDEF0");
}

#[test]
fn empty_and_lone_tag_lines_are_malformed() {
    assert!(parse_slcan_frame(b"").is_none());
    assert!(parse_slcan_frame(b"t").is_none());
    assert!(parse_slcan_frame(b"T1ABCDEF").is_none());
    assert!(parse_slcan_frame(b"t1231zz").is_none());
}

#[test]
fn identifiers_that_do_not_fit_are_malformed() {
    for line in ["tFFF0", "t8000", "r8000", "T200000000", "RFFFFFFFF0"] {
        assert!(parse_slcan_frame(line.as_bytes()).is_none(), "{line}");
    }
    assert_eq!(parse_slcan_frame(b"t7FF0").unwrap().id, 0x7ff);
    assert_eq!(parse_slcan_frame(b"T1FFFFFFF0").unwrap().id, 0x1fff_ffff);
    let mut b = bridge();
    open(&mut b);
    assert_eq!(ask(&mut b, "tFFF0\r"), "\x07");
}

#[test]
fn lower_case_digits_and_trailing_text_are_accepted() {
    let f = parse_slcan_frame(b"t7bc2deadBEEF").unwrap();
    assert_eq!(f.id, 0x7bc);
    assert_eq!(f.payload(), &[0xde, 0xad]);
}

#[test]
fn hex_digits_read_back() {
    for n in 0..16u8 {
        assert_eq!(hex_value(hex_digit(n)), Some(n));
    }
    assert_eq!(hex_value(b'g'), None);
    assert_eq!(hex_digit(0x1f), b'F');
    assert_eq!(parse_hex(b"1Ab"), Some(0x1ab));
    assert_eq!(parse_hex(b"1Ax"), None);
    assert_eq!(parse_hex(b""), Some(0));
}

#[test]
fn emitted_lines() {
    let mut out = Vec::new();
    let mut f = CanFrame::new(0x123, false, &[0xde, 0xad]);
    f.timestamp_us = 61_234_567;
    push_frame(&mut out, &f, false);
    push_frame(&mut out, &f, true);
    push_frame(&mut out, &CanFrame::new_remote(0x1fff_ffff, true, 3), false);
    assert_eq!(
        String::from_utf8(out).unwrap(),
        "t1232DEAD\rt1232DEAD04D2\rR1FFFFFFF3\r"
    );
}

#[test]
fn emitted_length_stops_at_eight() {
    let mut f = CanFrame::new(1, false, &[1, 2, 3, 4, 5, 6, 7, 8]);
    f.dlc = 15;
    let mut out = Vec::new();
    push_frame(&mut out, &f, false);
    assert_eq!(out, b"t00180102030405060708\r");
    assert_eq!(parse_slcan_frame(&out[..out.len() - 1]).unwrap().dlc, 8);
}

// ───────────────────────── Bridge ─────────────────────────

/// An adapter of product `pid` that answered the probe with `identification`.
fn adapter(pid: u16, identification: &[u8]) -> Device {
    let services = if pid == 0x1261 {
        [vec![1], vec![]]
    } else {
        [vec![], vec![1]]
    };
    let (_, attach) = Device::open(Device::list(&services), 0);
    let mut attach: Attach = attach.unwrap();
    loop {
        let reply = match attach.action() {
            AttachAction::FindChild { .. } => AttachReply::Found(2),
            AttachAction::Identify(x) => {
                let mut bytes = vec![0x7e, 0x01, identification.len() as u8, 0x00];
                bytes.extend_from_slice(identification);
                AttachReply::Answered(x.received(Ok(bytes)).unwrap())
            }
            _ => AttachReply::Done,
        };
        match attach.answered(reply).unwrap() {
            AttachProgress::Next(next) => attach = next,
            AttachProgress::Ready(device) => return device,
        }
    }
}

fn bridge() -> SlcanBridge {
    SlcanBridge::new(adapter(0x1261, &[0x71, 0x04]), 1, "/dev/ttys004".to_string())
}

/// Feed a line that needs no adapter and take the answer.
fn ask(bridge: &mut SlcanBridge, line: &str) -> String {
    let (n, action) = bridge.pump_commands(line.as_bytes());
    assert_eq!(n, line.len());
    assert!(action.is_none());
    take_output(bridge)
}

fn take_output(bridge: &mut SlcanBridge) -> String {
    let text = String::from_utf8(bridge.output().to_vec()).unwrap();
    bridge.flush(Ok(())).unwrap();
    assert!(bridge.output().is_empty());
    text
}

fn open(bridge: &mut SlcanBridge) {
    let (_, action) = bridge.pump_commands(b"O\r");
    let Some(BridgeAction::Start { mode, .. }) = action else {
        panic!("no start");
    };
    bridge.started(mode, Ok(()));
    assert_eq!(take_output(bridge), "\r");
}

fn response() -> CtrlResp {
    usbcan_2eu::protocol::parse_ctrl_resp(&[0x7e, 0x24, 0x00, 0x00], 0x24).unwrap()
}

fn ack(status: u8) -> TxAck {
    parse_tx_ack(&[status, 0x81, 0x00, 0x00, 0x00]).unwrap()
}

#[test]
fn bridge_answers_simple_commands() {
    let mut b = bridge();
    assert_eq!(b.path(), "/dev/ttys004");
    assert_eq!(ask(&mut b, "\r"), "\r");
    assert_eq!(ask(&mut b, "V\r"), "V1010\r");
    assert_eq!(ask(&mut b, "v\n"), "v1010\r");
    assert_eq!(ask(&mut b, "N\r"), "N7104\r");
    assert_eq!(ask(&mut b, "F\r"), "F00\r");
    assert_eq!(ask(&mut b, "Z0\rZ1\rZ2\rZ\r"), "\r\r\x07\x07");
    assert_eq!(ask(&mut b, "M00000000\rmFFFFFFFF\r"), "\r\r");
    assert_eq!(ask(&mut b, "s0014\rx\r"), "\x07\x07");
    assert_eq!(ask(&mut b, "C\rt1230\r"), "\x07\x07");
}

#[test]
fn serial_number_is_zero_where_the_identification_is_short() {
    let mut b = SlcanBridge::new(adapter(0x1261, &[0xab]), 0, String::new());
    assert_eq!(ask(&mut b, "N\r"), "NAB00\r");
    let mut b = SlcanBridge::new(adapter(0x1261, &[]), 0, String::new());
    assert_eq!(ask(&mut b, "N\r"), "N0000\r");
}

#[test]
fn set_command_names_the_rates_in_order() {
    for (i, rate) in Bitrate::ALL.iter().enumerate() {
        let mut b = bridge();
        assert_eq!(ask(&mut b, &format!("S{i}\r")), "\r");
        let (_, action) = b.pump_commands(b"O\r");
        let Some(BridgeAction::Start { sequence, mode }) = action else {
            panic!("no start");
        };
        assert_eq!(mode, ChannelMode::Normal);
        assert_eq!(timing_word_of(sequence), rate.packed());
    }
    let mut b = bridge();
    assert_eq!(ask(&mut b, "S9\rS\rSx\r"), "\x07\x07\x07");
}

/// The timing word that a start sequence sets.
fn timing_word_of(mut sequence: usbcan_2eu::device::StartSequence) -> u32 {
    loop {
        let x = sequence.exchange();
        if x.cmd == 0x23 {
            let d = &x.write.data;
            return u32::from_le_bytes([d[6], d[7], d[8], d[9]]);
        }
        sequence = sequence.answered(Ok(response())).unwrap().unwrap();
    }
}

#[test]
fn preset_rate_is_used_when_the_channel_opens() {
    let mut b = bridge();
    b.set_bitrate(Bitrate::Kbps125);
    let (n, action) = b.pump_commands(b"L\rV\r");
    assert_eq!(n, 2, "the next line waits for the adapter");
    let Some(BridgeAction::Start { sequence, mode }) = action else {
        panic!("no start");
    };
    assert_eq!(mode, ChannelMode::Passive);
    assert_eq!(timing_word_of(sequence), Bitrate::Kbps125.packed());
}

#[test]
fn failed_open_is_refused_and_leaves_the_channel_closed() {
    let mut b = bridge();
    let (_, action) = b.pump_commands(b"O\r");
    assert!(matches!(action, Some(BridgeAction::Start { .. })));
    b.started(ChannelMode::Normal, Err(Error::Timeout { ms: 2000 }));
    assert_eq!(take_output(&mut b), "\x07");
    assert!(matches!(b.next_step(), BridgeStep::Sleep { ms: 20 }));
    assert!(b.shutdown().is_none());
}

#[test]
fn open_channel_refuses_open_and_set() {
    let mut b = bridge();
    open(&mut b);
    assert_eq!(ask(&mut b, "O\rL\rS6\r"), "\x07\x07\x07");
    let BridgeStep::Receive(x) = b.next_step() else {
        panic!("an open channel is read");
    };
    assert_eq!((x.read.endpoint, x.read.room, x.read.timeout_ms), (0x85, 6144, 20));
    let last = b.shutdown().expect("an open channel is stopped");
    assert_eq!(&last.write.data[..6], &[0x7e, 0x24, 0x02, 0x00, 0x02, 0x00]);
}

#[test]
fn close_stops_the_channel() {
    let mut b = bridge();
    open(&mut b);
    let (_, action) = b.pump_commands(b"C\r");
    let Some(BridgeAction::Stop(x)) = action else {
        panic!("no stop");
    };
    assert_eq!(&x.write.data[..6], &[0x7e, 0x24, 0x02, 0x00, 0x02, 0x00]);
    b.stopped(Ok(response()));
    assert_eq!(take_output(&mut b), "\r");
    assert_eq!(ask(&mut b, "C\r"), "\x07");
    open(&mut b);
    b.pump_commands(b"C\r");
    b.stopped(Err(Error::Timeout { ms: 1 }));
    assert_eq!(take_output(&mut b), "\x07");
    assert_eq!(ask(&mut b, "C\r"), "\x07");
}

#[test]
fn transmit_goes_out_on_the_channel_of_the_bridge() {
    let mut b = bridge();
    open(&mut b);
    let (_, action) = b.pump_commands(b"t1232AABB\r");
    let Some(BridgeAction::Transmit(x)) = action else {
        panic!("no transmission");
    };
    assert_eq!(x.write.endpoint, 0x02);
    let sent = parse_rx_chunk(&x.write.data[8..32]).frames_on(1);
    assert_eq!(sent.len(), 1);
    assert_eq!(sent[0].id, 0x123);
    assert_eq!(sent[0].payload(), &[0xaa, 0xbb]);
    b.transmitted(Ok(ack(0x0e)));
    assert_eq!(take_output(&mut b), "\r");
    assert_eq!(ask(&mut b, "F\r"), "F00\r");
    assert_eq!(ask(&mut b, "t1239\r"), "\x07");
}

#[test]
fn failed_transmissions_show_in_the_status() {
    for failure in [Ok(ack(0x00)), Err(Error::Timeout { ms: 2000 })] {
        let mut b = bridge();
        open(&mut b);
        b.pump_commands(b"r1234\r");
        b.transmitted(failure);
        assert_eq!(take_output(&mut b), "\x07");
        assert_eq!(ask(&mut b, "F\rF\r"), "F80\rF00\r");
    }
}

#[test]
fn bell_resynchronizes_and_long_lines_are_cut() {
    let mut b = bridge();
    assert_eq!(ask(&mut b, "garbage\x07V\r"), "V1010\r");
    let mut line = "V".repeat(1000);
    line.push('\r');
    assert_eq!(ask(&mut b, &line), "V1010\r");
}

#[test]
fn as_many_answers_as_lines() {
    let mut b = bridge();
    let mut rest: &[u8] = b"\rV\nx\rO\rt1230\rN\rt12\rF\rC\r\r\x07C\rpartial";
    let lines = rest.iter().filter(|&&c| c == b'\r' || c == b'\n').count();
    while !rest.is_empty() {
        let (n, action) = b.pump_commands(rest);
        rest = &rest[n..];
        match action {
            Some(BridgeAction::Start { mode, .. }) => b.started(mode, Ok(())),
            Some(BridgeAction::Stop(_)) => b.stopped(Err(Error::Timeout { ms: 1 })),
            Some(BridgeAction::Transmit(_)) => b.transmitted(Ok(ack(0x00))),
            None => {}
        }
    }
    let text = take_output(&mut b);
    assert_eq!(text.matches(['\r', '\x07']).count(), lines);
    assert_eq!(text, "\rV1010\r\x07\r\x07N7104\r\x07F80\r\x07\r\x07");
}

#[test]
fn line_may_arrive_in_pieces() {
    let mut b = bridge();
    assert!(b.accept_byte(b'V').is_none());
    assert!(b.output().is_empty());
    assert!(b.accept_byte(b'\r').is_none());
    assert_eq!(take_output(&mut b), "V1010\r");
}

fn status_record(code: u8) -> [u8; 24] {
    let mut r = [0u8; 24];
    r[0] = 0x0f;
    r[1] = code;
    r
}

#[test]
fn received_frames_of_the_channel_are_written() {
    let mut bytes = Vec::new();
    for channel in [0u8, 1] {
        let mut f = CanFrame::new(0x100 + u32::from(channel), false, &[channel]);
        f.channel = channel;
        f.timestamp_us = 5_000;
        bytes.extend_from_slice(&pack_frame(&f));
    }
    let mut b = bridge();
    b.pump_frames(Ok(parse_rx_chunk(&bytes))).unwrap();
    assert_eq!(take_output(&mut b), "t101101\r");
    ask(&mut b, "Z1\r");
    b.pump_frames(Ok(parse_rx_chunk(&bytes))).unwrap();
    assert_eq!(take_output(&mut b), "t1011010005\r");
}

#[test]
fn status_records_show_in_the_status_until_read() {
    let mut b = bridge();
    let mut bytes = Vec::new();
    for code in [0xe1, 0xe2, 0xe3, 0xe4, 0xe6] {
        bytes.extend_from_slice(&status_record(code));
    }
    b.pump_frames(Ok(parse_rx_chunk(&bytes))).unwrap();
    b.pump_frames(Ok(parse_rx_chunk(&status_record(0xe5)))).unwrap();
    assert_eq!(ask(&mut b, "F\rF\r"), "FAC\rF00\r");
}

#[test]
fn idle_bus_is_no_error_but_a_fault_is() {
    let mut b = bridge();
    b.pump_frames(Err(Error::Timeout { ms: 20 })).unwrap();
    assert!(b.output().is_empty());
    let fault = UsbFault {
        code: -536870208,
        domain: "IOUSBHostErrorDomain".to_string(),
        description: "gone".to_string(),
    };
    let e: Error = usbcan_2eu::transfer::nserror_to_error(&fault, "bulk IN");
    assert!(matches!(b.pump_frames(Err(e)), Err(Error::Usb { .. })));
    let quiet: Result<RxChunk, Error> = Ok(parse_rx_chunk(&[]));
    b.pump_frames(quiet).unwrap();
    assert!(b.output().is_empty());
}

#[test]
fn bridge_on_a_channel_the_adapter_lacks_never_opens() {
    let mut b = SlcanBridge::new(adapter(0x1260, &[]), 1, String::new());
    assert_eq!(ask(&mut b, "O\rL\r"), "\x07\x07");
}

// ───────────────────────── Pseudo-terminal ─────────────────────────

fn fault(kind: FaultKind) -> PtyFault {
    PtyFault {
        kind,
        message: "broken".to_string(),
    }
}

#[test]
fn disconnected_clients_read_as_nothing() {
    for kind in [FaultKind::BrokenPipe, FaultKind::UnexpectedEof, FaultKind::HostIo] {
        assert!(is_disconnected(&fault(kind)));
        assert_eq!(read_nonblocking(Err(fault(kind))).unwrap(), 0);
    }
    assert!(!is_disconnected(&fault(FaultKind::WouldBlock)));
    assert_eq!(read_nonblocking(Err(fault(FaultKind::WouldBlock))).unwrap(), 0);
    assert_eq!(read_nonblocking(Ok(7)).unwrap(), 7);
    assert!(matches!(
        read_nonblocking(Err(fault(FaultKind::Other))),
        Err(Error::Io(m)) if m == "broken"
    ));
}

#[test]
fn output_for_a_gone_client_is_dropped() {
    let mut b = bridge();
    b.pump_commands(b"V\r");
    b.flush(Err(fault(FaultKind::HostIo))).unwrap();
    assert!(b.output().is_empty());
    b.pump_commands(b"V\r");
    assert!(matches!(
        b.flush(Err(fault(FaultKind::Other))),
        Err(Error::Io(_))
    ));
    assert_eq!(b.output(), b"V1010\r");
    b.flush(Ok(())).unwrap();
    b.flush(Err(fault(FaultKind::Other))).unwrap();
}
