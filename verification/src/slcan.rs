//! SLCAN (Lawicel ASCII) bridge.
//!
//! macOS has no SocketCAN, so tools that expect a CAN interface cannot see this
//! adapter directly. SLCAN is the lowest common denominator those tools do speak:
//! an ASCII line protocol over a serial port.
//!
//! ```text
//! python-can / cantools / SavvyCAN
//!            |  SLCAN over /dev/ttys004
//!       SlcanBridge
//!            |  USB
//!      USBCAN-2E-U
//! ```
//!
//! - [`line`] is the text form of a frame.
//! - [`bridge`] is the state of one bridge: what each byte from the client does,
//!   what the device is asked for, what goes back to the client.
//! - [`pty`] decides what a failed read or write of the pseudo-terminal means.
//!
//! # Scope
//!
//! One bridge serves one CAN channel. Run a second bridge for the second channel.
//!
//! Supported commands: `S0`-`S8`, `O`, `L`, `C`, `t`, `T`, `r`, `R`, `V`, `v`,
//! `N`, `F`, `Z0`, `Z1`, `M`, `m`. `s` (raw BTR registers) is rejected, because
//! this hardware does not use SJA1000-style BTR values. Filter commands are
//! accepted and ignored: filtering happens on the host.

pub mod bridge;
pub mod line;
pub mod pty;

pub use bridge::{BridgeAction, BridgeStep, SlcanBridge};
pub use line::{hex_digit, hex_value, parse_hex, parse_slcan_frame, push_hex};
