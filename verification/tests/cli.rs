//! Notations, and what the command-line tool says and decides.

use usbcan_2eu::attach::{AttachAction, AttachProgress, AttachReply};
use usbcan_2eu::cli::banner::describe_bridge;
use usbcan_2eu::cli::dump::{
    describe_frame, describe_listening, describe_status, listen_mode, Dump,
};
use usbcan_2eu::cli::info::{describe_adapters, describe_device};
use usbcan_2eu::cli::selftest::{
    check_adapter, conclude, describe_adapter, describe_start, frame_for, id_for, introduction,
    is_intact, Direction, DirectionResult, DirectionStep,
};
use usbcan_2eu::cli::send::{frame_to_send, report_send, Send, SendReport, SendStep};
use usbcan_2eu::cli::{describe_failure, log_level};
use usbcan_2eu::notation::{format_data, format_frame, format_id, parse_bitrate, parse_frame};
use usbcan_2eu::protocol::{pack_frame, parse_rx_chunk, parse_tx_ack};
use usbcan_2eu::{Bitrate, CanFrame, ChannelMode, Device, EndpointInfo, Error, RxChunk};

// ───────────────────────── Self-test frames ─────────────────────────

#[test]
fn selftest_frames_validate_independently_of_arrival_order() {
    let count = 50;
    // Every frame the test sends must validate.
    for i in 0..count {
        let f = CanFrame::new(id_for(i), false, &(i as u32).to_le_bytes());
        assert!(is_intact(&f, count), "frame {i} should validate");
    }
    // A frame whose payload and identifier disagree must not.
    let mismatched = CanFrame::new(id_for(1), false, &7u32.to_le_bytes());
    assert!(!is_intact(&mismatched, count));
    // Nor one with a truncated payload.
    assert!(!is_intact(&CanFrame::new(id_for(0), false, &[0, 0]), count));
    // Nor an index beyond what was sent.
    let stray = CanFrame::new(id_for(999), false, &999u32.to_le_bytes());
    assert!(!is_intact(&stray, count));
}

#[test]
fn selftest_frame_layout() {
    let f = frame_for(0x1_02ff);
    assert_eq!(f.id, 0x1ff);
    assert_eq!(f.payload(), &[0xff, 0x02, 0x01, 0x00]);
    let mut odd = frame_for(3);
    odd.extended = true;
    assert!(!is_intact(&odd, 50));
    let mut odd = frame_for(3);
    odd.remote = true;
    assert!(!is_intact(&odd, 50));
    assert!(is_intact(&frame_for(3), 4));
    assert!(!is_intact(&frame_for(3), 3));
}

// ───────────────────────── Notations ─────────────────────────

#[test]
fn bitrate_accepts_all_common_spellings() {
    assert_eq!(parse_bitrate("500k").unwrap(), Bitrate::Kbps500);
    assert_eq!(parse_bitrate("500").unwrap(), Bitrate::Kbps500);
    assert_eq!(parse_bitrate("500000").unwrap(), Bitrate::Kbps500);
    assert_eq!(parse_bitrate("1000k").unwrap(), Bitrate::Kbps1000);
    assert_eq!(parse_bitrate("1000000").unwrap(), Bitrate::Kbps1000);
    assert!(parse_bitrate("333k").is_err());
    assert!(parse_bitrate("nonsense").is_err());
}

#[test]
fn bitrate_edge_cases() {
    assert_eq!(parse_bitrate(" 250K ").unwrap(), Bitrate::Kbps250);
    assert_eq!(parse_bitrate("\u{3000}+20kk").unwrap(), Bitrate::Kbps20);
    assert_eq!(parse_bitrate("500000k ").unwrap(), Bitrate::Kbps500);
    assert_eq!(parse_bitrate("0000000000000125").unwrap(), Bitrate::Kbps125);
    for s in ["", "k", "+", "-5", "4294967296", "5 0", "0x10"] {
        assert_eq!(
            parse_bitrate(s).unwrap_err(),
            format!("'{s}' is not a bit rate")
        );
    }
    let all = "10k, 20k, 50k, 100k, 125k, 250k, 500k, 800k, 1000k";
    assert_eq!(
        parse_bitrate("333").unwrap_err(),
        format!("333 kbit/s is not supported; try one of {all}")
    );
    assert_eq!(
        parse_bitrate("500000k").unwrap_err(),
        format!("500000 kbit/s is not supported; try one of {all}")
    );
    assert_eq!(
        parse_bitrate("4294967295").unwrap_err(),
        format!("4294967 kbit/s is not supported; try one of {all}")
    );
}

#[test]
fn frame_notation_standard() {
    let f = parse_frame("123#DEADBEEF").unwrap();
    assert_eq!(f.id, 0x123);
    assert!(!f.extended);
    assert_eq!(f.payload(), &[0xde, 0xad, 0xbe, 0xef]);
}

#[test]
fn frame_notation_extended() {
    let f = parse_frame("1ABCDEF0#0102").unwrap();
    assert_eq!(f.id, 0x1abc_def0);
    assert!(f.extended);
    assert_eq!(f.payload(), &[1, 2]);
}

#[test]
fn frame_notation_empty_payload() {
    let f = parse_frame("123#").unwrap();
    assert_eq!(f.dlc, 0);
}

#[test]
fn frame_notation_remote() {
    let f = parse_frame("123#R4").unwrap();
    assert!(f.remote);
    assert_eq!(f.dlc, 4);
}

#[test]
fn frame_notation_rejects_bad_input() {
    assert!(parse_frame("123").is_err());
    assert!(
        parse_frame("800#00").is_err(),
        "id too large for a standard frame"
    );
    assert!(parse_frame("123#ABC").is_err(), "odd digit count");
    assert!(
        parse_frame("123#00112233445566778899").is_err(),
        "payload too long"
    );
    assert!(parse_frame("XYZ#00").is_err());
}

#[test]
fn frame_notation_complaints() {
    for (text, complaint) in [
        ("123", "'123' is missing the '#' separator"),
        ("#00", "'' is not a CAN identifier"),
        ("123456789#", "'123456789' is not a CAN identifier"),
        ("äöüßé#", "'äöüßé' is not a CAN identifier"),
        ("ä#", "'ä' is not hexadecimal"),
        ("12G#", "'12G' is not hexadecimal"),
        ("+#", "'+' is not hexadecimal"),
        ("800#", "identifier 0x800 does not fit in the frame format"),
        (
            "2000000A#",
            "identifier 0x2000000A does not fit in the frame format",
        ),
        ("123#R", "'' is not a length"),
        ("123#Rx", "'x' is not a length"),
        ("123#r256", "'256' is not a length"),
        ("123#R9", "remote frame length must be 0 to 8"),
        ("123#ABC", "payload must have an even number of hex digits"),
        ("123#001122334455667788", "payload is longer than 8 bytes"),
        ("123#00GG", "'GG' is not hexadecimal"),
        ("123#0-", "'0-' is not hexadecimal"),
        ("123#ä", "'ä' is not hexadecimal"),
        ("123#aäb", "payload is not hexadecimal"),
        ("123#00€€", "payload is not hexadecimal"),
        ("123#😀", "payload is not hexadecimal"),
        ("123#12#4", "'#4' is not hexadecimal"),
    ] {
        assert_eq!(parse_frame(text).unwrap_err(), complaint, "{text}");
    }
}

#[test]
fn frame_notation_signs_and_cases() {
    let f = parse_frame("+12#+aFf").unwrap();
    assert_eq!((f.id, f.extended), (0x12, false));
    assert_eq!(f.payload(), &[0x0a, 0xff]);
    let f = parse_frame("0012#R+008").unwrap();
    assert_eq!((f.id, f.extended, f.dlc), (0x12, true, 8));
}

#[test]
fn frame_notation_reads_back_what_it_writes() {
    for frame in [
        CanFrame::new(0x7ff, false, &[1, 2, 3, 4, 5, 6, 7, 8]),
        CanFrame::new(0x1fff_ffff, true, &[0xaa]),
        CanFrame::new(0, false, &[]),
        CanFrame::new_remote(0x12, true, 8),
    ] {
        assert_eq!(parse_frame(&format_frame(&frame)).unwrap(), frame);
    }
}

#[test]
fn frame_columns() {
    let f = CanFrame::new(0x12, false, &[0xde, 0xad]);
    assert_eq!(format_id(&f), "     012");
    assert_eq!(format_data(&f), "DE AD");
    let f = CanFrame::new_remote(0x12, true, 3);
    assert_eq!(format_id(&f), "00000012");
    assert_eq!(format_data(&f), "remote request");
    assert_eq!(describe_frame(&f), "  can0  00000012  [3] remote request");
    assert_eq!(format_data(&CanFrame::default()), "");
}

// ───────────────────────── info ─────────────────────────

fn adapter(two_channels: bool) -> Device {
    let services = if two_channels {
        [vec![1], vec![]]
    } else {
        [vec![], vec![1]]
    };
    let mut attach = Device::open_first(Device::list(&services)).1.unwrap();
    loop {
        let reply = match attach.action() {
            AttachAction::FindChild { .. } => AttachReply::Found(2),
            AttachAction::Identify(x) if two_channels => AttachReply::Answered(
                x.received(Ok(vec![0x7e, 0x01, 0x02, 0x00, 0x71, 0x04]))
                    .unwrap(),
            ),
            _ => AttachReply::Done,
        };
        match attach.answered(reply).unwrap() {
            AttachProgress::Next(next) => attach = next,
            AttachProgress::Ready(device) => return device,
        }
    }
}

#[test]
fn info_lists_adapters() {
    assert_eq!(
        describe_adapters(&[]),
        "No USBCAN-(2)E-U adapter found.\n\
         Looked for USB vendor 0x0471, products 0x1260 and 0x1261.\n"
    );
    assert_eq!(
        describe_adapters(&Device::list(&[vec![1], vec![2]])),
        "Attached adapters:\n\
         \x20 [0] USBCAN-2E-U (VID 0x0471 PID 0x1261, 2 channels)\n\
         \x20 [1] USBCAN-E-U (VID 0x0471 PID 0x1260, 1 channel)\n\n"
    );
}

#[test]
fn info_describes_one_adapter() {
    let ep = |address: u8, direction: u8, transfer_type: u8| EndpointInfo {
        address,
        number: address & 0x0f,
        direction,
        transfer_type,
        max_packet_size: 64,
    };
    let text = describe_device(
        3,
        &adapter(true),
        &[ep(0x03, 0, 1), ep(0x85, 1, 2), ep(0x81, 1, 3)],
    );
    let lines: Vec<&str> = text.lines().collect();
    assert_eq!(
        &lines[..12],
        &[
            "Adapter 3",
            "  model            USBCAN-2E-U",
            "  product id       0x1261",
            "  channels         2",
            "  identification   71 04",
            "",
            "  endpoints",
            "    0x03  isochronous OUT max  64 bytes  <- isochronous, never opened (see docs)",
            "    0x85  bulk        IN  max  64 bytes  <- receive",
            "    0x81  interrupt   IN  max  64 bytes",
            "",
            "  bit timing table (controller clock 36 MHz)",
        ]
    );
    assert_eq!(lines.len(), 21);
    assert_eq!(
        lines[12],
        "      10 kbit/s   brp 199  tseg1 12  tseg2 3  ->  3600 clocks/bit"
    );
    assert_eq!(
        lines[20],
        "    1000 kbit/s   brp   1  tseg1 12  tseg2 3  ->    36 clocks/bit"
    );
    assert!(text.ends_with('\n'));
    assert!(describe_device(0, &adapter(false), &[]).contains("identification   (no response)\n"));
}

// ───────────────────────── dump ─────────────────────────

fn batch(ids: &[u32]) -> RxChunk {
    let mut bytes = Vec::new();
    for &id in ids {
        bytes.extend_from_slice(&pack_frame(&CanFrame::new(id, false, &[])));
    }
    let mut status = [0u8; 24];
    status[1] = 0xe2;
    bytes.extend_from_slice(&status);
    parse_rx_chunk(&bytes)
}

#[test]
fn dump_prints_everything_without_a_limit() {
    let mut dump = Dump::new(0, true, None);
    let b = dump.accept(Ok(batch(&[1, 2, 3]))).unwrap();
    assert_eq!((b.frames.len(), b.status.len(), b.done), (3, 1, false));
    let b = dump.accept(Err(Error::Timeout { ms: 200 })).unwrap();
    assert_eq!((b.frames.len(), b.status.len(), b.done), (0, 0, false));
    assert!(dump.accept(Err(Error::Protocol("odd"))).is_err());
    assert_eq!(dump.count(), 3);
    assert_eq!(dump.describe_end(), "\n3 frame(s) received");
}

#[test]
fn dump_stops_at_its_limit() {
    let mut dump = Dump::new(0, true, Some(4));
    assert!(!dump.accept(Ok(batch(&[1, 2, 3]))).unwrap().done);
    let b = dump.accept(Ok(batch(&[4, 5, 6]))).unwrap();
    assert!(b.done);
    assert_eq!(b.frames.len(), 1);
    assert_eq!(b.frames[0].id, 4);
    assert!(b.status.is_empty(), "nothing is printed after the last frame");
    assert_eq!(dump.count(), 4);
    let mut dump = Dump::new(0, false, Some(0));
    assert!(dump.is_done());
    assert!(dump.accept(Ok(batch(&[]))).unwrap().done);
    assert!(dump.accept(Err(Error::Timeout { ms: 200 })).unwrap().done);
    let b = dump.accept(Ok(batch(&[1, 2]))).unwrap();
    assert_eq!((b.frames.len(), b.done), (0, true));
    assert_eq!(dump.count(), 0);
}

#[test]
fn dump_is_done_once_its_limit_is_reached() {
    let mut dump = Dump::new(0, true, Some(2));
    assert!(!dump.is_done());
    assert!(!dump.accept(Err(Error::Timeout { ms: 200 })).unwrap().done);
    dump.accept(Ok(batch(&[1, 2]))).unwrap();
    assert!(dump.is_done());
    let b = dump.accept(Ok(batch(&[3]))).unwrap();
    assert_eq!((b.frames.len(), b.status.len(), b.done), (0, 0, true));
    assert!(!Dump::new(0, true, None).is_done());
}

#[test]
fn dump_ignores_the_other_channel() {
    let mut dump = Dump::new(1, false, None);
    let b = dump.accept(Ok(batch(&[1, 2, 3]))).unwrap();
    assert_eq!((b.frames.len(), b.status.len()), (0, 0));
}

#[test]
fn dump_texts() {
    assert_eq!(
        describe_listening(1, Bitrate::Kbps250, false),
        "listening on channel 1 at 250 kbit/s (normal); press Ctrl-C to stop"
    );
    assert!(describe_listening(0, Bitrate::Kbps10, true).contains("(listen-only)"));
    assert_eq!(listen_mode(true), ChannelMode::Passive);
    assert_eq!(listen_mode(false), ChannelMode::Normal);
    assert_eq!(
        describe_status(&batch(&[]).status[0]),
        "  status Overflow: 00 E2 00 00 00 00 00 00 00 00 00 00"
    );
    for (code, name) in [
        (0xe1u8, "TxAbort"),
        (0xe3, "CanError"),
        (0xe4, "Status"),
        (0xe5, "BusErrorOrPassive"),
        (0xe6, "Other"),
    ] {
        let mut r = [0u8; 24];
        r[1] = code;
        let status = parse_rx_chunk(&r).status[0];
        assert_eq!(format!("{:?}", status.kind), name);
        assert!(describe_status(&status).starts_with(&format!("  status {name}: 00 ")));
    }
}

// ───────────────────────── send ─────────────────────────

#[test]
fn send_reports() {
    assert_eq!(frame_to_send("123#01").unwrap(), CanFrame::new(0x123, false, &[1]));
    assert!(matches!(
        frame_to_send("123"),
        Err(Error::Init(m)) if m == "'123' is missing the '#' separator"
    ));
    let frame = CanFrame::new(0x123, false, &[1]);
    let ack = |status: u8| parse_tx_ack(&[status, 0x80, 1, 0, 0]).unwrap();
    assert!(matches!(
        report_send(&frame, &ack(0x0e)),
        SendReport::Sent(s) if s == "sent 123#01"
    ));
    assert!(matches!(
        report_send(&frame, &ack(0x0a)),
        SendReport::NotAccepted(s) if s == "adapter did not accept the frame (status 0x0A)"
    ));
}

/// The steps of a send that is acknowledged with `status` each time.
fn send_log(count: usize, status: u8) -> Vec<String> {
    let mut send = Send::new(CanFrame::new(0x123, false, &[1]), count, 100);
    let mut log = Vec::new();
    loop {
        match send.step() {
            SendStep::Transmit(frame) => {
                log.push(frame.to_string());
                let report = send.transmitted(parse_tx_ack(&[status, 0x80, 1, 0, 0]));
                assert_eq!(
                    matches!(report.unwrap(), SendReport::Sent(_)),
                    status == 0x0e
                );
            }
            SendStep::Wait { ms } => {
                log.push(format!("wait {ms}"));
                send.waited();
            }
            SendStep::Finished => return log,
        }
    }
}

#[test]
fn send_waits_between_repeats_only() {
    assert!(send_log(0, 0x0e).is_empty());
    assert_eq!(send_log(1, 0x0e), vec!["123#01"]);
    for status in [0x0e, 0x00] {
        assert_eq!(
            send_log(3, status),
            vec!["123#01", "wait 100", "123#01", "wait 100", "123#01"]
        );
    }
}

#[test]
fn send_ends_with_the_first_failure() {
    let mut send = Send::new(CanFrame::default(), 5, 100);
    assert!(matches!(
        send.transmitted(Err(Error::Timeout { ms: 2000 })),
        Err(Error::Timeout { ms: 2000 })
    ));
    assert!(matches!(send.step(), SendStep::Finished));
}

// ───────────────────────── selftest ─────────────────────────

/// Run a direction over a bus that delivers what `deliver` makes of each frame, two
/// at a time.
fn loop_back(count: usize, deliver: impl Fn(CanFrame) -> Option<CanFrame>) -> DirectionResult {
    let mut d = Direction::new(0, 1, count);
    assert_eq!(d.label(), "  can0 -> can1     ");
    let mut wire: Vec<u8> = Vec::new();
    let mut reads = 0;
    loop {
        match d.step() {
            DirectionStep::Transmit { channel, frame } => {
                assert_eq!(channel, 0);
                if let Some(mut f) = deliver(frame) {
                    f.channel = 1;
                    wire.extend_from_slice(&pack_frame(&f));
                }
                d.transmitted(parse_tx_ack(&[0x0e, 0x80, 4, 0, 0])).unwrap();
            }
            DirectionStep::Drain { timeout_ms } => {
                assert_eq!(timeout_ms, 5);
                reads += 1;
                if reads % 2 == 0 {
                    d.drained(Ok(parse_rx_chunk(&wire)));
                    wire.clear();
                } else {
                    d.drained(Err(Error::Timeout { ms: 5 }));
                }
            }
            DirectionStep::Collect { timeout_ms } => {
                assert_eq!(timeout_ms, 100);
                if wire.is_empty() {
                    d.collected(Err(Error::Timeout { ms: 100 })).unwrap();
                } else {
                    d.collected(Ok(parse_rx_chunk(&wire))).unwrap();
                    wire.clear();
                }
            }
            DirectionStep::Finished(result) => return result,
        }
    }
}

#[test]
fn intact_loopback_passes() {
    let result = loop_back(101, Some);
    assert!(result.is_pass());
    assert_eq!(result.to_string(), "101/101 frames, 0 errors");
    assert!(loop_back(0, Some).is_pass());
}

#[test]
fn lost_and_corrupted_frames_fail() {
    let result = loop_back(10, |f| if f.id == 0x105 { None } else { Some(f) });
    assert!(!result.is_pass());
    assert_eq!(result.to_string(), "9/10 frames, 0 corrupted");
    let result = loop_back(10, |mut f| {
        f.data[0] ^= 1;
        Some(f)
    });
    assert_eq!(result.to_string(), "10/10 frames, 10 corrupted");
}

#[test]
fn direction_ends_on_failure_or_when_time_is_up() {
    let mut d = Direction::new(1, 0, 1);
    assert!(matches!(
        d.transmitted(Err(Error::Timeout { ms: 2000 })),
        Err(Error::Timeout { ms: 2000 })
    ));
    d.transmitted(parse_tx_ack(&[0x00, 0x80, 4, 0, 0])).unwrap();
    d.drained(Err(Error::Protocol("odd")));
    assert!(d.collected(Err(Error::Protocol("odd"))).is_err());
    assert!(matches!(d.step(), DirectionStep::Collect { .. }));
    d.expired();
    let DirectionStep::Finished(result) = d.step() else {
        panic!("the time is up");
    };
    assert_eq!(result.to_string(), "0/1 frames, 0 corrupted");
}

#[test]
fn selftest_verdict() {
    let good = DirectionResult {
        sent: 3,
        received: 3,
        corrupted: 0,
    };
    let bad = DirectionResult {
        sent: 3,
        received: 3,
        corrupted: 1,
    };
    let (text, result) = conclude(&good, &good);
    assert_eq!(text, "\nPASS\n");
    assert!(result.is_ok());
    for (a, b) in [(&good, &bad), (&bad, &good)] {
        let (text, result) = conclude(a, b);
        assert!(text.starts_with("\nFAIL\n\nIf nothing arrived"));
        assert!(matches!(result, Err(Error::Init(m)) if m == "self test failed"));
    }
}

#[test]
fn selftest_needs_two_channels() {
    assert!(introduction().starts_with("USBCAN-(2)E-U self test\n\n"));
    assert!(check_adapter(&adapter(true)).is_ok());
    assert!(matches!(
        check_adapter(&adapter(false)),
        Err(Error::Init(m)) if m == "the self test needs a two-channel adapter"
    ));
    assert_eq!(
        describe_adapter(2, &adapter(true)),
        "  adapter          USBCAN-2E-U at index 2\n"
    );
    assert_eq!(
        describe_adapter(0, &adapter(false)),
        "  adapter          USBCAN-E-U at index 0\n\
         \x20 FAIL             this model has only one channel\n"
    );
    assert_eq!(
        describe_start(Bitrate::Kbps800),
        "  both channels    started at 800 kbit/s\n\n"
    );
}

// ───────────────────────── shared ─────────────────────────

#[test]
fn bridge_announcement() {
    assert_eq!(
        describe_bridge(1, "/dev/ttys004", Bitrate::Kbps500),
        "SLCAN bridge for channel 1 is up.\n\n\
         \x20 device   /dev/ttys004\n\
         \x20 bitrate  500 kbit/s (a client may change it with an S command)\n\n\
         python-can:\n\
         \x20 can.Bus(interface=\"slcan\", channel=\"/dev/ttys004\", bitrate=500000)\n\n\
         Press Ctrl-C to stop.\n"
    );
}

#[test]
fn failures_come_with_a_hint() {
    assert_eq!(
        describe_failure(&Error::Timeout { ms: 5 }),
        "error: operation timed out after 5 ms\n"
    );
    assert_eq!(
        describe_failure(&Error::DeviceNotFound {
            vid: 0x0471,
            pid: 0x1261
        }),
        "error: device not found (VID=0x0471 PID=0x1261)\n\
         hint: check the adapter is attached with `usbcan2eu info`\n"
    );
}

#[test]
fn log_levels() {
    assert_eq!(log_level(0), "warn");
    assert_eq!(log_level(1), "info");
    assert_eq!(log_level(2), "debug");
    assert_eq!(log_level(3), "trace");
    assert_eq!(log_level(255), "trace");
}
