//! Wire protocol: packet layouts, bit-timing table, pure pack/parse functions.
//!
//! This module performs **no I/O**. Every function here is a pure transformation
//! between CAN-level concepts and the bytes that travel over USB, so the whole
//! protocol can be proved and tested without hardware attached.
//!
//! # Endpoint map
//!
//! | Endpoint | Type      | Direction | Purpose                                  |
//! |----------|-----------|-----------|------------------------------------------|
//! | `0x04`   | interrupt | OUT       | Control commands (fixed 64 bytes)        |
//! | `0x84`   | interrupt | IN        | Control responses (fixed 64 bytes)       |
//! | `0x02`   | bulk      | OUT       | CAN frames to transmit (>= 80 bytes)     |
//! | `0x82`   | bulk      | IN        | Transmit acknowledgement (5 bytes)       |
//! | `0x85`   | bulk      | IN        | Received CAN frames (24 bytes per frame) |
//! | `0x01`/`0x81` | interrupt | both | Shutdown handshake, unused by this driver |
//! | `0x03`/`0x83` | **isochronous** | both | **Never open these**               |
//!
//! Both CAN channels share the same endpoints; the channel is carried inside the
//! packets, not by endpoint selection. Received frames for channel 0 and channel 1
//! arrive interleaved on `0x85`.

use vstd::prelude::*;

pub mod bytes;
pub mod ctrl;
pub mod frame;
pub mod receive;
pub mod timing;
pub mod transmit;

pub use ctrl::{
    init_channel_payload, pack_ctrl, parse_ctrl_resp, set_bit_timing_payload, start_payload,
    stop_payload, CtrlCmd, CtrlResp, CTRL_PACKET_LEN, CTRL_SOF,
};
pub use frame::{pack_frame, CanFrame, FRAME_LEN};
pub use receive::{parse_rx_chunk, RxChunk, RxStatus, RxStatusKind};
pub use timing::{Bitrate, ChannelMode, CAN_CLOCK_HZ};
pub use transmit::{
    pack_tx_header, pack_tx_packet, parse_tx_ack, TxAck, MAX_FRAMES_PER_PACKET, TX_HEADER_LEN,
    TX_HEADER_MAGIC, TX_PACKET_MIN_LEN,
};

verus! {

// ───────────────────────────── Device identity ─────────────────────────────

/// USB vendor ID used by the USBCAN-(2)E-U family.
pub const VID: u16 = 0x0471;

/// Product ID of the dual-channel USBCAN-2E-U.
pub const PID_2E_U: u16 = 0x1261;

/// Product ID of the single-channel USBCAN-E-U.
pub const PID_E_U: u16 = 0x1260;

/// All product IDs this driver will match on.
pub const SUPPORTED_PIDS: [u16; 2] = [PID_2E_U, PID_E_U];

// ───────────────────────────── USB endpoints ─────────────────────────────

/// Bulk OUT: CAN frames to be transmitted.
pub const EP_DATA_OUT: u8 = 0x02;

/// Bulk IN: 5-byte transmit acknowledgement.
pub const EP_TX_ACK_IN: u8 = 0x82;

/// Interrupt OUT: 64-byte control commands.
pub const EP_CTRL_OUT: u8 = 0x04;

/// Interrupt IN: 64-byte control responses.
pub const EP_CTRL_IN: u8 = 0x84;

/// Bulk IN: stream of received CAN frames.
pub const EP_DATA_IN: u8 = 0x85;

} // verus!
