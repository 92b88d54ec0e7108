//! Driver logic for the ZLG USBCAN-E-U and USBCAN-2E-U CAN interfaces on macOS.
//!
//! The vendor ships Windows and Linux drivers but nothing for macOS. This crate
//! speaks the adapter's USB protocol: it says which bytes to move over which pipe and
//! what the bytes that come back mean. Moving them is left to a transport, so nothing
//! here performs I/O, and every function states and proves what it does.
//!
//! This is an independent, unofficial implementation. It is not affiliated with,
//! authorized by, or supported by the hardware vendor.
//!
//! # Layout
//!
//! - [`protocol`] — packet layouts and bit timing as pure functions.
//! - [`transfer`] — what the end of a USB transfer means.
//! - [`device`] — the adapter, and the transfers that each operation on it takes.
//! - [`attach`] — finding an adapter and opening it.
//! - [`slcan`] — a Lawicel/SLCAN bridge, which makes the adapter usable from
//!   python-can and other tools that speak SLCAN.
//! - [`embedded_can_impl`] — what the `embedded-can` traits need.
//! - [`notation`] — bit rates and frames as people write them.
//! - [`cli`] — what the command-line tool says and decides.
//! - [`text`] — text building blocks.
//!
//! # Laws
//!
//! What holds of several functions together is stated by public proof functions whose
//! names begin with `law_`, next to the functions that they are about.
//!
//! # Safety on a live bus
//!
//! Transmitting puts real frames on a real bus. Do not point this at a vehicle,
//! battery system, or any other equipment you are not prepared to disturb.

pub mod attach;
pub mod cli;
pub mod device;
pub mod embedded_can_impl;
pub mod error;
pub mod notation;
pub mod protocol;
pub mod slcan;
pub mod text;
pub mod transfer;

pub use device::{Device, DeviceInfo, EndpointInfo};
pub use embedded_can_impl::{CanChannel, FrameId};
pub use error::Error;
pub use protocol::{
    Bitrate, CanFrame, ChannelMode, CtrlCmd, CtrlResp, RxChunk, RxStatus, RxStatusKind, TxAck,
};
