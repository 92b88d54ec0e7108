//! The wire format: packet layouts, decoders and bit timing.

use usbcan_2eu::protocol::{
    init_channel_payload, pack_ctrl, pack_frame, pack_tx_header, pack_tx_packet, parse_ctrl_resp,
    parse_rx_chunk, parse_tx_ack, set_bit_timing_payload, start_payload, stop_payload,
    CAN_CLOCK_HZ, CTRL_PACKET_LEN, FRAME_LEN, MAX_FRAMES_PER_PACKET, TX_HEADER_LEN,
    TX_HEADER_MAGIC, TX_PACKET_MIN_LEN,
};
use usbcan_2eu::{Bitrate, CanFrame, ChannelMode, CtrlCmd, Error, RxChunk, RxStatusKind};

#[test]
fn ctrl_packet_layout_and_checksum() {
    let pkt = pack_ctrl(0x01, &[0x01]);
    assert_eq!(pkt.len(), CTRL_PACKET_LEN);
    assert_eq!(&pkt[..5], &[0x7e, 0x01, 0x01, 0x00, 0x01]);
    // 0x7e ^ 0x01 ^ 0x01 ^ 0x00 ^ 0x01
    assert_eq!(pkt[5], 0x7f);
    assert_eq!(&pkt[6..], &[0u8; 58]);
}

#[test]
fn ctrl_packet_init_channel() {
    let pkt = pack_ctrl(CtrlCmd::InitChannel.code(), &init_channel_payload(0));
    assert_eq!(
        &pkt[..11],
        &[0x7e, 0x02, 0x07, 0x00, 0x01, 0x01, 0x01, 0x00, 0x18, 0x00, 0x00]
    );
    let xor = pkt[..11].iter().fold(0u8, |a, b| a ^ b);
    assert_eq!(pkt[11], xor);
}

#[test]
fn ctrl_response_accepted() {
    let mut buf = [0u8; CTRL_PACKET_LEN];
    buf[..7].copy_from_slice(&[0x7e, 0x01, 0x02, 0x00, 0x71, 0x04, 0x08]);
    let resp = parse_ctrl_resp(&buf, 0x01).unwrap();
    assert_eq!(resp.cmd_echo, 0x01);
    assert_eq!(resp.bytes(), &[0x71, 0x04]);
}

#[test]
fn ctrl_response_rejected() {
    let buf = [0x7e, 0x02, 0x80, 0, 0, 0, 0, 0];
    assert!(matches!(
        parse_ctrl_resp(&buf, 0x02),
        Err(Error::Rejected { cmd: 0x02, .. })
    ));
}

#[test]
fn ctrl_response_wrong_command_echo() {
    let buf = [0x7e, 0x24, 0x00, 0, 0, 0, 0, 0];
    assert!(parse_ctrl_resp(&buf, 0x02).is_err());
}

#[test]
fn tx_header_frame_count_is_big_endian() {
    assert_eq!(
        pack_tx_header(1, 0, true, 1),
        [0x8e, 0x00, 0x01, 0x01, 0x00, 0x01, 0x00, 0x00]
    );
    let h = pack_tx_header(0x0123, 1, true, 1);
    assert_eq!((h[1], h[2]), (0x01, 0x23));
    assert_eq!(h[4], 1);
}

#[test]
fn frame_pack_standard_id() {
    let f = pack_frame(&CanFrame::new(0x123, false, &[0xaa, 0xbb, 0xcc, 0xdd]));
    assert_eq!(&f[..4], &[0x0f, 0x00, 0x00, 0x04]);
    assert_eq!(&f[8..12], &[0x23, 0x01, 0x00, 0x00]);
    assert_eq!(&f[12..16], &[0xaa, 0xbb, 0xcc, 0xdd]);
    let xor = f[..16].iter().fold(0u8, |a, b| a ^ b);
    assert_eq!(f[16], xor);
    assert_eq!(f[16], 0x29);
}

#[test]
fn frame_pack_extended_id() {
    let f = pack_frame(&CanFrame::new(0x1234_5678, true, &[0xa5; 8]));
    assert_eq!(f[3], 0x88);
    assert_eq!(&f[8..12], &[0x78, 0x56, 0x34, 0x12]);
}

#[test]
fn frame_pack_remote() {
    let f = pack_frame(&CanFrame::new_remote(0x100, false, 8));
    assert_eq!(f[3], 0x48);
}

#[test]
fn tx_packet_is_padded_to_minimum() {
    let pkt = pack_tx_packet(&[CanFrame::new(0x123, false, &[1, 2, 3, 4])], 0, true);
    assert_eq!(pkt.len(), TX_PACKET_MIN_LEN);
    assert_eq!(pkt[0], TX_HEADER_MAGIC);
    assert_eq!(&pkt[32..], &[0u8; 48]);
}

#[test]
fn tx_packet_forces_the_channel_onto_every_frame() {
    let frames = [
        CanFrame::new(0x100, false, &[1]),
        CanFrame::new(0x200, false, &[2]),
    ];
    let pkt = pack_tx_packet(&frames, 1, true);
    assert_eq!(pkt[4], 1, "header channel");
    for i in 0..2 {
        let flags = pkt[TX_HEADER_LEN + i * FRAME_LEN + 3];
        assert_eq!((flags >> 4) & 0x03, 1, "frame {i} channel");
    }
}

#[test]
fn tx_packet_grows_past_minimum() {
    let frames = vec![CanFrame::new(1, false, &[0]); 4];
    let pkt = pack_tx_packet(&frames, 0, true);
    assert_eq!(pkt.len(), TX_HEADER_LEN + 4 * FRAME_LEN);
}

#[test]
fn tx_ack_success() {
    let ack = parse_tx_ack(&[0x0e, 0x81, 0x04, 0x00, 0x8b]).unwrap();
    assert!(ack.is_success());
    assert_eq!(ack.channel_marker, 0x81);
    assert_eq!(ack.dlc_echo, 0x04);
}

#[test]
fn tx_ack_too_short() {
    assert!(parse_tx_ack(&[0x0e, 0x81]).is_err());
}

#[test]
fn rx_chunk_decodes_status_record() {
    let raw: [u8; FRAME_LEN] = [
        0x0f, 0xe5, 0x03, 0x00, 0x86, 0xfe, 0xc1, 0x02, 0xa2, 0x01, 0x00, 0x00, 0x00, 0x00,
        0x00, 0x00, 0x00, 0x00, 0x00, 0x00, 0x00, 0x00, 0x00, 0x00,
    ];
    let chunk = parse_rx_chunk(&raw);
    assert!(chunk.frames.is_empty());
    assert_eq!(chunk.status.len(), 1);
    assert_eq!(chunk.status[0].kind, RxStatusKind::BusErrorOrPassive);
}

#[test]
fn rx_chunk_decodes_data_frame() {
    let mut f = [0u8; FRAME_LEN];
    f[0] = 0x0f;
    f[3] = 0x04;
    f[4..8].copy_from_slice(&0x1234_5678u32.to_le_bytes());
    f[8..12].copy_from_slice(&0x123u32.to_le_bytes());
    f[12..16].copy_from_slice(&[0xde, 0xad, 0xbe, 0xef]);
    let chunk = parse_rx_chunk(&f);
    assert_eq!(chunk.frames.len(), 1);
    let frame = chunk.frames[0];
    assert_eq!(frame.id, 0x123);
    assert!(!frame.extended);
    assert_eq!(frame.payload(), &[0xde, 0xad, 0xbe, 0xef]);
    assert_eq!(frame.timestamp_us, 0x1234_5678);
    assert_eq!(frame.channel, 0);
}

#[test]
fn rx_chunk_ignores_byte0_and_drops_bad_channel() {
    let mut f = [0u8; FRAME_LEN * 2];
    // Record 0: data frame with an unexpected byte 0 - must still decode.
    f[0] = 0x00;
    f[3] = 0x11; // channel 1, dlc 1
                 // Record 1: channel 2 - must be dropped.
    f[FRAME_LEN] = 0x0f;
    f[FRAME_LEN + 3] = 0x21;
    let chunk = parse_rx_chunk(&f);
    assert_eq!(chunk.frames.len(), 1);
    assert_eq!(chunk.frames[0].channel, 1);
}

#[test]
fn rx_chunk_keeps_unknown_records() {
    let mut f = [0u8; FRAME_LEN];
    f[1] = 0x77;
    let chunk = parse_rx_chunk(&f);
    assert_eq!(chunk.unknown.len(), 1);
}

#[test]
fn rx_chunk_ignores_trailing_partial_record() {
    let chunk = parse_rx_chunk(&[0u8; FRAME_LEN + 5]);
    assert_eq!(chunk.frames.len(), 1);
}

#[test]
fn frame_roundtrips_through_the_wire_format() {
    for frame in [
        CanFrame::new(0x7ff, false, &[1, 2, 3, 4, 5, 6, 7, 8]),
        CanFrame::new(0x1fff_ffff, true, &[0xaa]),
        CanFrame::new(0, false, &[]),
    ] {
        let decoded = parse_rx_chunk(&pack_frame(&frame)).frames[0];
        assert_eq!(decoded.id, frame.id);
        assert_eq!(decoded.extended, frame.extended);
        assert_eq!(decoded.dlc, frame.dlc);
        assert_eq!(decoded.payload(), frame.payload());
    }
}

#[test]
fn every_bitrate_is_exact_at_36mhz_and_passes_firmware_check() {
    for b in Bitrate::ALL {
        let clocks = b.clocks_per_bit();
        assert_eq!(
            clocks * b.kbps(),
            CAN_CLOCK_HZ / 1000,
            "{} is not exact: {clocks} clocks/bit",
            b.to_string()
        );
        assert!(
            clocks > 35,
            "{} would be rejected by the firmware",
            b.to_string()
        );
    }
}

#[test]
fn bitrate_250k_matches_the_calibration_measurement() {
    assert_eq!(Bitrate::Kbps250.clocks_per_bit(), 144);
    assert_eq!(Bitrate::unpack(Bitrate::Kbps250.packed()), (8, 12, 1));
}

#[test]
fn bitrate_lookup() {
    assert_eq!(Bitrate::from_kbps(500), Some(Bitrate::Kbps500));
    assert_eq!(Bitrate::from_kbps(333), None);
}

#[test]
fn frame_display() {
    assert_eq!(
        CanFrame::new(0x123, false, &[0xde, 0xad]).to_string(),
        "123#DEAD"
    );
    assert_eq!(
        CanFrame::new(0x1abcdef0, true, &[]).to_string(),
        "1ABCDEF0#"
    );
    assert_eq!(CanFrame::new_remote(0x7ff, false, 4).to_string(), "7FF#R4");
}

// ───────────────────────── Captured bytes ─────────────────────────

/// A probe response as captured from an adapter.
fn captured_probe() -> Vec<u8> {
    let mut bytes = vec![0x7e, 0x01, 0x02, 0x00, 0x71, 0x04, 0x08];
    bytes.resize(CTRL_PACKET_LEN, 0);
    bytes
}

#[test]
fn captured_probe_response_decodes() {
    let bytes = captured_probe();
    let resp = parse_ctrl_resp(&bytes, 0x01).expect("probe response should decode");
    assert_eq!(resp.cmd_echo, 0x01);
    assert_eq!(resp.bytes(), &[0x71, 0x04]);
}

#[test]
fn captured_probe_response_rejects_wrong_command() {
    let bytes = captured_probe();
    assert!(
        parse_ctrl_resp(&bytes, 0x02).is_err(),
        "a response must not be accepted for a command it does not echo"
    );
}

#[test]
fn captured_transmit_ack_decodes() {
    let ack = parse_tx_ack(&[0x0e, 0x81, 0x04, 0x00, 0x8b]).expect("ack should decode");
    assert!(ack.is_success());
    assert_eq!(ack.channel_marker, 0x81);
    assert_eq!(ack.dlc_echo, 4);
}

#[test]
fn captured_bus_error_status_decodes() {
    let mut bytes = vec![
        0x0f, 0xe5, 0x03, 0x00, 0x86, 0xfe, 0xc1, 0x02, 0xa2, 0x01, 0x00, 0x00,
    ];
    bytes.resize(24, 0);
    assert_eq!(bytes.len(), FRAME_LEN, "a record is always 24 bytes");
    let chunk = parse_rx_chunk(&bytes);
    assert!(chunk.frames.is_empty());
    assert!(chunk.unknown.is_empty());
    assert_eq!(chunk.status.len(), 1);
    assert_eq!(chunk.status[0].kind, RxStatusKind::BusErrorOrPassive);
}

#[test]
fn empty_input_decodes_to_nothing() {
    assert!(parse_rx_chunk(&[]).is_empty());
}

#[test]
fn the_bit_timing_table_is_internally_consistent() {
    for rate in Bitrate::ALL {
        assert_eq!(
            rate.clocks_per_bit() * rate.kbps(),
            36_000,
            "{} does not divide the controller clock exactly",
            rate.to_string()
        );
    }
}

// ───────────────────────── Control packets ─────────────────────────

#[test]
fn command_bytes() {
    assert_eq!(CtrlCmd::Probe.code(), 0x01);
    assert_eq!(CtrlCmd::InitChannel.code(), 0x02);
    assert_eq!(CtrlCmd::SetBitTiming.code(), 0x23);
    assert_eq!(CtrlCmd::StartStop.code(), 0x24);
    assert_eq!(CtrlCmd::SetReference.code(), 0x25);
    assert_eq!(CtrlCmd::TxErrRecover.code(), 0x27);
    assert_eq!(CtrlCmd::GetStatus.code(), 0x2c);
}

#[test]
fn channel_payloads() {
    assert_eq!(
        init_channel_payload(1),
        [0x01, 0x02, 0x01, 0x00, 0x18, 0x00, 0x00]
    );
    assert_eq!(start_payload(0), [0x01, 0x80]);
    assert_eq!(start_payload(1), [0x02, 0x80]);
    assert_eq!(stop_payload(1), [0x02, 0x00]);
    assert_eq!(
        set_bit_timing_payload(0, 0x00, 0x0411_0008),
        [0x01, 0x00, 0x08, 0x00, 0x11, 0x04]
    );
}

#[test]
fn control_packet_holds_the_longest_payload() {
    let payload = [0xa5u8; 59];
    let pkt = pack_ctrl(0x10, &payload);
    assert_eq!(&pkt[..4], &[0x7e, 0x10, 59, 0x00]);
    assert_eq!(&pkt[4..63], &payload);
    assert_eq!(pkt.iter().fold(0u8, |a, b| a ^ b), 0);
}

#[test]
fn control_packet_reads_back_as_a_response() {
    let resp = parse_ctrl_resp(&pack_ctrl(0x24, &[9, 8, 7]), 0x24).unwrap();
    assert_eq!(resp.bytes(), &[9, 8, 7]);
    assert_eq!(resp.cmd_echo, 0x24);
}

#[test]
fn malformed_responses() {
    for (buf, cmd) in [
        (vec![0x7e, 0x01, 0x00], 0x01u8),
        (vec![0x7f, 0x01, 0x00, 0x00], 0x01),
        (vec![0x7e, 0x02, 0x00, 0x00], 0x01),
    ] {
        assert!(matches!(
            parse_ctrl_resp(&buf, cmd),
            Err(Error::Protocol(_))
        ));
    }
    assert!(matches!(
        parse_ctrl_resp(&[0x7e, 0x06, 0x9f, 0x00], 0x06),
        Err(Error::Rejected {
            cmd: 0x06,
            status: 0x9f
        })
    ));
}

#[test]
fn short_response_yields_the_bytes_that_are_there() {
    let resp = parse_ctrl_resp(&[0x7e, 0x01, 0x04, 0x00, 0xaa], 0x01).unwrap();
    assert_eq!(resp.bytes()[0], 0xaa);
}

// ───────────────────────── Records ─────────────────────────

#[test]
fn record_checksum_cancels() {
    let f = pack_frame(&CanFrame::new(0x555, false, &[1, 2, 3]));
    assert_eq!(f[..16].iter().fold(0u8, |a, b| a ^ b), 0);
}

#[test]
fn record_cuts_fields_to_the_wire() {
    let f = pack_frame(&CanFrame::new(0xffff_ffff, false, &[]));
    assert_eq!(&f[8..12], &[0xff, 0x07, 0x00, 0x00]);
    let f = pack_frame(&CanFrame::new(0xffff_ffff, true, &[]));
    assert_eq!(&f[8..12], &[0xff, 0xff, 0xff, 0x1f]);
}

#[test]
fn long_payload_is_cut_to_eight_bytes() {
    let f = CanFrame::new(1, false, &[1, 2, 3, 4, 5, 6, 7, 8, 9]);
    assert_eq!(f.dlc, 8);
    assert_eq!(f.payload(), &[1, 2, 3, 4, 5, 6, 7, 8]);
}

#[test]
fn default_frame_is_all_zero() {
    let f = CanFrame::default();
    assert_eq!(f, CanFrame::new(0, false, &[]));
}

#[test]
fn received_fields_are_cut_to_their_range() {
    let mut r = [0xffu8; FRAME_LEN];
    r[1] = 0x00;
    r[3] = 0x0f;
    let frame = parse_rx_chunk(&r).frames[0];
    assert_eq!((frame.id, frame.extended, frame.dlc), (0x7ff, false, 8));
    assert_eq!(frame.payload(), &[0xff; 8]);
    r[3] = 0x99;
    let frame = parse_rx_chunk(&r).frames[0];
    assert_eq!((frame.id, frame.extended, frame.dlc), (0x1fff_ffff, true, 8));
    r[3] = 0x08;
    assert_eq!(parse_rx_chunk(&r).frames[0].dlc, 8);
}

#[test]
fn status_kinds() {
    for (code, kind) in [
        (0xe1u8, RxStatusKind::TxAbort),
        (0xe2, RxStatusKind::Overflow),
        (0xe3, RxStatusKind::CanError),
        (0xe4, RxStatusKind::Status),
        (0xe5, RxStatusKind::BusErrorOrPassive),
        (0xe6, RxStatusKind::Other),
    ] {
        let mut r = [0u8; FRAME_LEN];
        r[1] = code;
        r[5] = 0x42;
        let chunk = parse_rx_chunk(&r);
        assert_eq!(chunk.status.len(), 1);
        assert_eq!(chunk.status[0].kind, kind);
        assert_eq!(chunk.status[0].raw, r);
    }
}

#[test]
fn chunk_splits_by_channel_in_order() {
    let mut bytes = Vec::new();
    for (id, channel) in [(1u32, 0u8), (2, 1), (3, 0), (4, 1)] {
        let mut frame = CanFrame::new(id, false, &[id as u8]);
        frame.channel = channel;
        bytes.extend_from_slice(&pack_frame(&frame));
    }
    let chunk = parse_rx_chunk(&bytes);
    let ids = |channel: u8| -> Vec<u32> { chunk.frames_on(channel).iter().map(|f| f.id).collect() };
    assert_eq!(ids(0), vec![1, 3]);
    assert_eq!(ids(1), vec![2, 4]);
    assert!(ids(2).is_empty());
    assert!(!chunk.is_empty());
}

#[test]
fn chunks_concatenate() {
    let a = pack_frame(&CanFrame::new(0x11, false, &[1]));
    let mut b = [0u8; FRAME_LEN];
    b[1] = 0x77;
    let mut both = a.to_vec();
    both.extend_from_slice(&b);
    let chunk: RxChunk = parse_rx_chunk(&both);
    assert_eq!(chunk.frames, parse_rx_chunk(&a).frames);
    assert_eq!(chunk.unknown, parse_rx_chunk(&b).unknown);
}

#[test]
fn chunk_of_unknown_records_is_not_empty() {
    let mut r = [0u8; FRAME_LEN];
    r[1] = 0xe0;
    assert!(!parse_rx_chunk(&r).is_empty());
    assert_eq!(parse_rx_chunk(&r).unknown[0], r);
}

// ───────────────────────── Transmit packets ─────────────────────────

#[test]
fn transmit_packet_ignores_timestamp_and_channel_of_the_frame() {
    let plain = CanFrame::new(0x123, false, &[1, 2]);
    let mut marked = plain;
    marked.timestamp_us = 0xdead_beef;
    marked.channel = 1;
    assert_eq!(
        pack_tx_packet(&[plain], 0, true),
        pack_tx_packet(&[marked], 0, true)
    );
}

#[test]
fn transmit_packet_body_is_what_the_other_end_receives() {
    let frames = vec![CanFrame::new(0x1abc_def0, true, &[1, 2, 3, 4]); 5];
    let pkt = pack_tx_packet(&frames, 1, true);
    let chunk = parse_rx_chunk(&pkt[TX_HEADER_LEN..]);
    assert!(chunk.status.is_empty() && chunk.unknown.is_empty());
    let received = chunk.frames_on(1);
    assert_eq!(received.len(), 5);
    for f in received {
        assert_eq!(f.id, 0x1abc_def0);
        assert_eq!(f.payload(), &[1, 2, 3, 4]);
    }
}

#[test]
fn largest_transmit_packet() {
    let frames = vec![CanFrame::new(1, false, &[]); MAX_FRAMES_PER_PACKET];
    let pkt = pack_tx_packet(&frames, 0, true);
    assert_eq!(pkt.len(), TX_HEADER_LEN + MAX_FRAMES_PER_PACKET * FRAME_LEN);
    assert_eq!((pkt[1], pkt[2]), (0, 127));
}

#[test]
fn refused_transmit_ack() {
    let ack = parse_tx_ack(&[0x0d, 0x80, 0x01, 0x00, 0x00]).unwrap();
    assert!(!ack.is_success());
    assert_eq!(ack.status, 0x0d);
}

// ───────────────────────── Bit timing ─────────────────────────

#[test]
fn timing_words() {
    assert_eq!(Bitrate::Kbps1000.packed(), 0x003c_0001);
    assert_eq!(Bitrate::Kbps250.packed(), 0x001c_0008);
    assert_eq!(Bitrate::Kbps10.packed(), 0x003c_00c7);
    for b in Bitrate::ALL {
        assert_eq!(Bitrate::from_kbps(b.kbps()), Some(b));
    }
    for pair in Bitrate::ALL.windows(2) {
        assert!(pair[0].kbps() < pair[1].kbps());
    }
}

#[test]
fn rate_text_and_modes() {
    assert_eq!(Bitrate::Kbps500.to_string(), "500 kbit/s");
    assert_eq!(ChannelMode::Normal.flag(), 0x80);
    assert_eq!(ChannelMode::Passive.flag(), 0x00);
    assert_eq!(ChannelMode::default(), ChannelMode::Normal);
}

// ───────────────────────── Errors ─────────────────────────

#[test]
fn error_messages() {
    for (e, text) in [
        (
            Error::Usb {
                code: -536870186,
                message: "bulk IN: late".to_string(),
            },
            "USB error (-536870186): bulk IN: late",
        ),
        (
            Error::DeviceNotFound {
                vid: 0x0471,
                pid: 0x1261,
            },
            "device not found (VID=0x0471 PID=0x1261)",
        ),
        (
            Error::MissingEndpoint { addr: 0x85 },
            "required endpoint 0x85 not present on device",
        ),
        (
            Error::InvalidChannel(7),
            "invalid channel index 7 (must be 0 or 1)",
        ),
        (
            Error::UnsupportedBitrate(333),
            "unsupported bitrate: 333 kbit/s",
        ),
        (
            Error::Timeout { ms: 2000 },
            "operation timed out after 2000 ms",
        ),
        (
            Error::Init("no luck".to_string()),
            "initialization failure: no luck",
        ),
        (Error::Protocol("odd"), "protocol error: odd"),
        (
            Error::Rejected {
                cmd: 0x02,
                status: 0x80,
            },
            "device rejected command 0x02 (status byte 0x80)",
        ),
        (Error::Io("gone".to_string()), "gone"),
    ] {
        assert_eq!(e.to_string(), text);
    }
}
