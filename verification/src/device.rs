//! The adapter: what it is, and the transfers that each operation on it takes.
//!
//! An operation that talks to the adapter hands out the transfers it needs, in
//! order, and takes back what came of each: a [`CtrlExchange`] for one control
//! command, a [`StartSequence`] for the four commands that start a channel, a
//! [`TransmitExchange`] for a batch of frames, a [`ReceiveExchange`] for one read of
//! the receive stream. The transport only moves bytes.
//!
//! Finding and opening an adapter is in [`crate::attach`].

use vstd::prelude::*;

use crate::error;
use crate::error::Error;
use crate::protocol;
use crate::protocol::{
    Bitrate, CanFrame, ChannelMode, CtrlCmd, CtrlResp, RxChunk, TxAck, CTRL_PACKET_LEN, EP_CTRL_IN,
    EP_CTRL_OUT, EP_DATA_IN, EP_DATA_OUT, EP_TX_ACK_IN, MAX_FRAMES_PER_PACKET, PID_2E_U, PID_E_U,
};
use crate::protocol::ctrl;
use crate::protocol::transmit;
use crate::transfer;
use crate::transfer::{UsbFault, UsbRead, UsbWrite};

verus! {

/// Default timeout for control command round-trips.
pub const DEFAULT_CTRL_TIMEOUT_MS: u32 = 2000;

/// Largest receive chunk the device will hand back in one transfer.
pub const RX_BUFFER_LEN: usize = 6144;

/// Room for the acknowledgement of a transmit packet.
pub const TX_ACK_LEN: usize = 64;

// ───────────────────────── Models ─────────────────────────

/// Human-readable model name of a product.
pub open spec fn model_name(pid: u16) -> Seq<char> {
    if pid == PID_2E_U {
        "USBCAN-2E-U"@
    } else if pid == PID_E_U {
        "USBCAN-E-U"@
    } else {
        "unknown"@
    }
}

/// Number of CAN channels of a product.
pub open spec fn channels_of(pid: u16) -> u8 {
    if pid == PID_2E_U {
        2
    } else {
        1
    }
}

/// A device that matched the driver's VID/PID, before it is opened.
#[derive(Debug, Clone, Copy, PartialEq, Eq, Structural)]
pub struct DeviceInfo {
    /// USB vendor ID, always [`protocol::VID`].
    pub vid: u16,
    /// USB product ID.
    pub pid: u16,
    /// IOKit service handle.
    pub service: u32,
}

impl DeviceInfo {
    /// Human-readable model name for [`Self::pid`].
    pub fn model(&self) -> (name: &'static str)
        ensures
            name@ == model_name(self.pid),
    {
        model_of(self.pid)
    }

    /// Number of CAN channels the model provides.
    pub fn channel_count(&self) -> (n: u8)
        ensures
            n == channels_of(self.pid),
    {
        channel_count_of(self.pid)
    }
}

/// Human-readable model name of a product.
fn model_of(pid: u16) -> (name: &'static str)
    ensures
        name@ == model_name(pid),
{
    if pid == PID_2E_U {
        "USBCAN-2E-U"
    } else if pid == PID_E_U {
        "USBCAN-E-U"
    } else {
        "unknown"
    }
}

/// Number of CAN channels of a product.
fn channel_count_of(pid: u16) -> (n: u8)
    ensures
        n == channels_of(pid),
{
    if pid == PID_2E_U {
        2
    } else {
        1
    }
}

/// One endpoint descriptor, as reported by the device.
#[derive(Debug, Clone, Copy, PartialEq, Eq, Structural)]
pub struct EndpointInfo {
    /// `bEndpointAddress`, including the direction bit.
    pub address: u8,
    /// Endpoint number without the direction bit.
    pub number: u8,
    /// `0` for OUT, `1` for IN.
    pub direction: u8,
    /// `0` control, `1` isochronous, `2` bulk, `3` interrupt.
    pub transfer_type: u8,
    /// `wMaxPacketSize`.
    pub max_packet_size: u16,
}

impl EndpointInfo {
    /// Transfer type as a word.
    pub open spec fn type_word(self) -> Seq<char> {
        if self.transfer_type == 0 {
            "control"@
        } else if self.transfer_type == 1 {
            "isochronous"@
        } else if self.transfer_type == 2 {
            "bulk"@
        } else if self.transfer_type == 3 {
            "interrupt"@
        } else {
            "unknown"@
        }
    }

    /// Direction as a word.
    pub open spec fn direction_word(self) -> Seq<char> {
        if self.direction == 1 {
            "IN"@
        } else {
            "OUT"@
        }
    }

    /// Transfer type as a word.
    pub fn transfer_type_name(&self) -> (name: &'static str)
        ensures
            name@ == self.type_word(),
    {
        match self.transfer_type {
            0 => "control",
            1 => "isochronous",
            2 => "bulk",
            3 => "interrupt",
            _ => "unknown",
        }
    }

    /// Direction as a word.
    pub fn direction_name(&self) -> (name: &'static str)
        ensures
            name@ == self.direction_word(),
    {
        if self.direction == 1 {
            "IN"
        } else {
            "OUT"
        }
    }
}

// ───────────────────────── Control commands ─────────────────────────

/// One control command and its response.
#[derive(Debug)]
pub struct CtrlExchange {
    /// The command byte that the response has to echo.
    pub cmd: u8,
    /// Carries the command to the adapter.
    pub write: UsbWrite,
    /// Brings the response.
    pub read: UsbRead,
}

/// What the end of the read that brings a control response means.
pub open spec fn ctrl_outcome(
    cmd: u8,
    read: UsbRead,
    done: Result<Vec<u8>, UsbFault>,
    r: Result<CtrlResp, Error>,
) -> bool {
    match done {
        Ok(bytes) => {
            let reply = transfer::front(bytes@, read.room as nat);
            if reply.len() == 0 {
                r == Err::<CtrlResp, Error>(Error::Timeout { ms: read.timeout_ms })
            } else {
                ctrl::reply_outcome(reply, cmd, r)
            }
        },
        Err(fault) => if fault.aborted() {
            r == Err::<CtrlResp, Error>(Error::Timeout { ms: read.timeout_ms })
        } else {
            r matches Err(e) && fault.reported("interrupt IN"@, e)
        },
    }
}

impl CtrlExchange {
    /// Whether this sends `cmd` with `payload` and waits `timeout_ms` for the answer.
    pub open spec fn asks(self, cmd: u8, payload: Seq<u8>, timeout_ms: u32) -> bool {
        &&& self.cmd == cmd
        &&& self.write.is(EP_CTRL_OUT, ctrl::ctrl_packet(cmd, payload), None)
        &&& self.read == UsbRead {
            endpoint: EP_CTRL_IN,
            room: CTRL_PACKET_LEN,
            timeout_ms,
            watchdog: true,
        }
    }

    /// Conclude the write.
    pub fn sent(&self, done: Result<usize, UsbFault>) -> (r: Result<(), Error>)
        ensures
            transfer::interrupt_out_outcome(done, r),
    {
        transfer::interrupt_out(done)
    }

    /// Conclude the read: decode the response.
    pub fn received(&self, done: Result<Vec<u8>, UsbFault>) -> (r: Result<CtrlResp, Error>)
        ensures
            ctrl_outcome(self.cmd, self.read, done, r),
    {
        match transfer::interrupt_in_timeout(done, self.read.room, self.read.timeout_ms) {
            Ok(reply) => {
                if reply.len() == 0 {
                    return Err(Error::Timeout { ms: self.read.timeout_ms });
                }
                protocol::parse_ctrl_resp(reply.as_slice(), self.cmd)
            },
            Err(e) => Err(e),
        }
    }
}

// ───────────────────────── Starting a channel ─────────────────────────

/// The commands that start a channel, in order.
#[derive(Debug, Clone, Copy, PartialEq, Eq, Structural)]
pub enum StartStep {
    /// Stop the channel. One left running by a previous process rejects the
    /// initialize command, and this clears that.
    Stop,
    /// Initialize it.
    Init,
    /// Set the bit timing.
    Timing,
    /// Start it.
    Start,
}

/// What a [`StartSequence`] is about and how far it has come.
pub struct StartState {
    /// The command to send next.
    pub step: StartStep,
    /// The channel to start.
    pub channel: u8,
    /// At what bit rate.
    pub bitrate: Bitrate,
    /// In what mode.
    pub mode: ChannelMode,
    /// How long each command may take.
    pub timeout_ms: u32,
}

impl StartState {
    /// Command byte of the command to send next.
    pub open spec fn command(self) -> u8 {
        match self.step {
            StartStep::Stop => CtrlCmd::StartStop.command_byte(),
            StartStep::Init => CtrlCmd::InitChannel.command_byte(),
            StartStep::Timing => CtrlCmd::SetBitTiming.command_byte(),
            StartStep::Start => CtrlCmd::StartStop.command_byte(),
        }
    }

    /// Payload of the command to send next.
    pub open spec fn payload(self) -> Seq<u8> {
        match self.step {
            StartStep::Stop => ctrl::stop_bytes(self.channel),
            StartStep::Init => ctrl::init_channel_bytes(self.channel),
            StartStep::Timing => ctrl::set_bit_timing_bytes(
                self.channel,
                self.mode.mode_byte(),
                self.bitrate.word(),
            ),
            StartStep::Start => ctrl::start_bytes(self.channel),
        }
    }
}

/// Which command follows, given the answer to that of `step`; `Ok(None)` once the
/// channel is started.
///
/// A failure to stop does not matter. A channel initialized by an earlier run stays
/// initialized, and the adapter then rejects the initialize command: that counts as
/// success.
pub open spec fn start_next(step: StartStep, reply: Result<CtrlResp, Error>) -> Result<
    Option<StartStep>,
    Error,
> {
    match (step, reply) {
        (StartStep::Stop, _) => Ok(Some(StartStep::Init)),
        (StartStep::Init, Err(Error::Rejected { .. })) => Ok(Some(StartStep::Timing)),
        (_, Err(e)) => Err(e),
        (StartStep::Init, Ok(_)) => Ok(Some(StartStep::Timing)),
        (StartStep::Timing, Ok(_)) => Ok(Some(StartStep::Start)),
        (StartStep::Start, Ok(_)) => Ok(None),
    }
}

/// The commands that start a channel, as they are worked through.
#[derive(Debug, Clone, Copy)]
pub struct StartSequence {
    step: StartStep,
    channel: u8,
    bitrate: Bitrate,
    mode: ChannelMode,
    timeout_ms: u32,
}

impl View for StartSequence {
    type V = StartState;

    closed spec fn view(&self) -> StartState {
        StartState {
            step: self.step,
            channel: self.channel,
            bitrate: self.bitrate,
            mode: self.mode,
            timeout_ms: self.timeout_ms,
        }
    }
}

impl StartSequence {
    /// No adapter has more than two channels.
    #[verifier::type_invariant]
    closed spec fn channel_exists(self) -> bool {
        self.channel < 2
    }

    /// The command to send next.
    pub fn step(&self) -> (step: StartStep)
        ensures
            step == self@.step,
    {
        self.step
    }

    /// The exchange of the command to send next.
    pub fn exchange(&self) -> (x: CtrlExchange)
        ensures
            x.asks(self@.command(), self@.payload(), self@.timeout_ms),
    {
        proof {
            use_type_invariant(self);
        }
        match self.step {
            StartStep::Stop => ctrl_exchange(
                CtrlCmd::StartStop.code(),
                &protocol::stop_payload(self.channel),
                self.timeout_ms,
            ),
            StartStep::Init => ctrl_exchange(
                CtrlCmd::InitChannel.code(),
                &protocol::init_channel_payload(self.channel),
                self.timeout_ms,
            ),
            StartStep::Timing => ctrl_exchange(
                CtrlCmd::SetBitTiming.code(),
                &protocol::set_bit_timing_payload(
                    self.channel,
                    self.mode.flag(),
                    self.bitrate.packed(),
                ),
                self.timeout_ms,
            ),
            StartStep::Start => ctrl_exchange(
                CtrlCmd::StartStop.code(),
                &protocol::start_payload(self.channel),
                self.timeout_ms,
            ),
        }
    }

    /// Take the answer to that command. `Ok(None)` means that the channel is started.
    pub fn answered(self, reply: Result<CtrlResp, Error>) -> (r: Result<Option<Self>, Error>)
        ensures
            match start_next(self@.step, reply) {
                Ok(Some(step)) => r matches Ok(Some(next)) && next@ == (StartState {
                    step,
                    ..self@
                }),
                Ok(None) => r matches Ok(None),
                Err(e) => r == Err::<Option<Self>, Error>(e),
            },
    {
        proof {
            use_type_invariant(&self);
        }
        let step: StartStep = match (self.step, reply) {
            (StartStep::Stop, _) => StartStep::Init,
            (StartStep::Init, Err(Error::Rejected { .. })) => StartStep::Timing,
            (_, Err(e)) => return Err(e),
            (StartStep::Init, Ok(_)) => StartStep::Timing,
            (StartStep::Timing, Ok(_)) => StartStep::Start,
            (StartStep::Start, Ok(_)) => return Ok(None),
        };
        Ok(Some(StartSequence { step, ..self }))
    }
}

/// The exchange of one control command.
fn ctrl_exchange(cmd: u8, payload: &[u8], timeout_ms: u32) -> (x: CtrlExchange)
    requires
        payload@.len() <= 59,
    ensures
        x.asks(cmd, payload@, timeout_ms),
{
    let packet = protocol::pack_ctrl(cmd, payload);
    let mut data: Vec<u8> = Vec::new();
    data.extend_from_slice(&packet);
    assert(data@ =~= ctrl::ctrl_packet(cmd, payload@));
    CtrlExchange {
        cmd,
        write: UsbWrite { endpoint: EP_CTRL_OUT, data, timeout_ms: None },
        read: UsbRead {
            endpoint: EP_CTRL_IN,
            room: CTRL_PACKET_LEN,
            timeout_ms,
            watchdog: true,
        },
    }
}

// ───────────────────────── Data path ─────────────────────────

/// One transmit packet and its acknowledgement.
#[derive(Debug)]
pub struct TransmitExchange {
    /// Carries the packet to the adapter.
    pub write: UsbWrite,
    /// Brings the acknowledgement.
    pub read: UsbRead,
}

/// What the end of the read that brings an acknowledgement means.
pub open spec fn transmit_outcome(
    read: UsbRead,
    done: Result<Vec<u8>, UsbFault>,
    r: Result<TxAck, Error>,
) -> bool {
    match done {
        Ok(bytes) => {
            let reply = transfer::front(bytes@, read.room as nat);
            if reply.len() == 0 {
                r == Err::<TxAck, Error>(Error::Timeout { ms: read.timeout_ms })
            } else {
                transmit::ack_outcome(reply, r)
            }
        },
        Err(fault) => if fault.timed_out() {
            r == Err::<TxAck, Error>(Error::Timeout { ms: read.timeout_ms })
        } else {
            r matches Err(e) && fault.reported("bulk IN"@, e)
        },
    }
}

impl TransmitExchange {
    /// Whether this sends `frames` on `channel`, each transfer within `timeout_ms`.
    pub open spec fn sends(self, frames: Seq<CanFrame>, channel: u8, timeout_ms: u32) -> bool {
        &&& self.write.is(
            EP_DATA_OUT,
            transmit::tx_packet(frames, channel, true),
            Some(timeout_ms),
        )
        &&& self.read == UsbRead {
            endpoint: EP_TX_ACK_IN,
            room: TX_ACK_LEN,
            timeout_ms,
            watchdog: false,
        }
    }

    /// Conclude the write.
    pub fn sent(&self, done: Result<usize, UsbFault>) -> (r: Result<(), Error>)
        ensures
            transfer::bulk_out_outcome(done, self.read.timeout_ms, r),
    {
        transfer::bulk_out(done, self.read.timeout_ms)
    }

    /// Conclude the read: decode the acknowledgement.
    pub fn received(&self, done: Result<Vec<u8>, UsbFault>) -> (r: Result<TxAck, Error>)
        ensures
            transmit_outcome(self.read, done, r),
    {
        match transfer::bulk_in(done, self.read.room, self.read.timeout_ms) {
            Ok(reply) => {
                if reply.len() == 0 {
                    return Err(Error::Timeout { ms: self.read.timeout_ms });
                }
                protocol::parse_tx_ack(reply.as_slice())
            },
            Err(e) => Err(e),
        }
    }
}

/// One read of the receive stream.
#[derive(Debug, Clone, Copy)]
pub struct ReceiveExchange {
    /// Brings a batch of records.
    pub read: UsbRead,
}

/// What the end of a read of the receive stream means.
pub open spec fn receive_outcome(
    read: UsbRead,
    done: Result<Vec<u8>, UsbFault>,
    r: Result<RxChunk, Error>,
) -> bool {
    match done {
        Ok(bytes) => r matches Ok(chunk) && chunk.decodes(
            transfer::front(bytes@, read.room as nat),
        ),
        Err(fault) => if fault.timed_out() {
            r == Err::<RxChunk, Error>(Error::Timeout { ms: read.timeout_ms })
        } else {
            r matches Err(e) && fault.reported("bulk IN"@, e)
        },
    }
}

impl ReceiveExchange {
    /// Conclude the read: decode the records.
    pub fn received(&self, done: Result<Vec<u8>, UsbFault>) -> (r: Result<RxChunk, Error>)
        ensures
            receive_outcome(self.read, done, r),
    {
        match transfer::bulk_in(done, self.read.room, self.read.timeout_ms) {
            Ok(bytes) => Ok(protocol::parse_rx_chunk(bytes.as_slice())),
            Err(e) => Err(e),
        }
    }

    /// Conclude the read without decoding: copy what came to `buf`, and say how many
    /// bytes that is.
    pub fn received_raw(&self, done: Result<Vec<u8>, UsbFault>, buf: &mut [u8]) -> (r: Result<
        usize,
        Error,
    >)
        ensures
            match done {
                Ok(bytes) => {
                    let data = transfer::front(
                        transfer::front(bytes@, self.read.room as nat),
                        old(buf)@.len(),
                    );
                    &&& r == Ok::<usize, Error>(data.len() as usize)
                    &&& final(buf)@ == data + old(buf)@.skip(data.len() as int)
                },
                Err(fault) => {
                    &&& final(buf)@ == old(buf)@
                    &&& if fault.timed_out() {
                        r == Err::<usize, Error>(Error::Timeout { ms: self.read.timeout_ms })
                    } else {
                        r matches Err(e) && fault.reported("bulk IN"@, e)
                    }
                },
            },
    {
        match transfer::bulk_in(done, self.read.room, self.read.timeout_ms) {
            Ok(bytes) => {
                let n: usize = transfer::copy_out(bytes.as_slice(), buf);
                assert(bytes@.take(n as int) =~= transfer::front(bytes@, old(buf)@.len()));
                Ok(n)
            },
            Err(e) => Err(e),
        }
    }
}

// ───────────────────────── The adapter ─────────────────────────

/// What is known of an open adapter.
pub struct DeviceState {
    /// USB product ID.
    pub pid: u16,
    /// What the identification probe brought; empty if it was not answered.
    pub identification: Seq<u8>,
    /// Timeout of control commands and transmissions, in milliseconds.
    pub ctrl_timeout_ms: u32,
}

/// An open USBCAN-(2)E-U.
///
/// The device keeps its channel state across process exits — see
/// [`Device::start_channel`].
#[derive(Debug)]
pub struct Device {
    pid: u16,
    identification: Vec<u8>,
    ctrl_timeout_ms: u32,
}

impl View for Device {
    type V = DeviceState;

    closed spec fn view(&self) -> DeviceState {
        DeviceState {
            pid: self.pid,
            identification: self.identification@,
            ctrl_timeout_ms: self.ctrl_timeout_ms,
        }
    }
}

impl Device {
    /// An adapter just attached, with the default timeout.
    pub(crate) fn attached(pid: u16, identification: Vec<u8>) -> (device: Self)
        ensures
            device@ == (DeviceState {
                pid,
                identification: identification@,
                ctrl_timeout_ms: DEFAULT_CTRL_TIMEOUT_MS,
            }),
    {
        Device { pid, identification, ctrl_timeout_ms: DEFAULT_CTRL_TIMEOUT_MS }
    }

    /// USB product ID of this adapter.
    pub fn product_id(&self) -> (pid: u16)
        ensures
            pid == self@.pid,
    {
        self.pid
    }

    /// Model name.
    pub fn model(&self) -> (name: &'static str)
        ensures
            name@ == model_name(self@.pid),
    {
        model_of(self.pid)
    }

    /// Number of CAN channels this model provides.
    pub fn channel_count(&self) -> (n: u8)
        ensures
            n == channels_of(self@.pid),
    {
        channel_count_of(self.pid)
    }

    /// Raw payload returned by the identification probe.
    ///
    /// Two bytes on the units tested. The meaning is not documented; treat it as
    /// an opaque firmware fingerprint and report it when filing issues.
    pub fn identification(&self) -> (id: &[u8])
        ensures
            id@ == self@.identification,
    {
        self.identification.as_slice()
    }

    /// Current control-command timeout in milliseconds.
    pub fn ctrl_timeout_ms(&self) -> (ms: u32)
        ensures
            ms == self@.ctrl_timeout_ms,
    {
        self.ctrl_timeout_ms
    }

    /// Change the control-command timeout.
    pub fn set_ctrl_timeout_ms(&mut self, ms: u32)
        ensures
            final(self)@ == (DeviceState { ctrl_timeout_ms: ms, ..old(self)@ }),
    {
        self.ctrl_timeout_ms = ms;
    }

    /// Configure and start a CAN channel.
    ///
    /// Gives the full sequence the device expects: stop, initialize, set bit timing,
    /// start. It is safe to run on an already-running channel.
    ///
    /// # Firmware state survives your process
    ///
    /// A channel initialized by an earlier run stays initialized until the device
    /// is re-enumerated, and the initialize step then reports failure. That case is
    /// detected and treated as success — bit timing and start are applied either
    /// way, so a restart still lands on the requested configuration.
    ///
    /// # Errors
    ///
    /// [`Error::InvalidChannel`] if `channel` is not a channel this model has.
    pub fn start_channel(&self, channel: u8, bitrate: Bitrate, mode: ChannelMode) -> (r: Result<
        StartSequence,
        Error,
    >)
        ensures
            if channel < channels_of(self@.pid) {
                r matches Ok(sequence) && sequence@ == (StartState {
                    step: StartStep::Stop,
                    channel,
                    bitrate,
                    mode,
                    timeout_ms: self@.ctrl_timeout_ms,
                })
            } else {
                r == Err::<StartSequence, Error>(Error::InvalidChannel(channel))
            },
    {
        match self.check_channel(channel) {
            Ok(()) => Ok(
                StartSequence {
                    step: StartStep::Stop,
                    channel,
                    bitrate,
                    mode,
                    timeout_ms: self.ctrl_timeout_ms,
                },
            ),
            Err(e) => Err(e),
        }
    }

    /// Stop a CAN channel and take it off the bus.
    ///
    /// The channel is stopped once the exchange has brought a response.
    pub fn stop_channel(&self, channel: u8) -> (r: Result<CtrlExchange, Error>)
        ensures
            if channel < channels_of(self@.pid) {
                r matches Ok(x) && x.asks(
                    CtrlCmd::StartStop.command_byte(),
                    ctrl::stop_bytes(channel),
                    self@.ctrl_timeout_ms,
                )
            } else {
                r == Err::<CtrlExchange, Error>(Error::InvalidChannel(channel))
            },
    {
        match self.check_channel(channel) {
            Ok(()) => Ok(
                self.send_ctrl(CtrlCmd::StartStop.code(), &protocol::stop_payload(channel)),
            ),
            Err(e) => Err(e),
        }
    }

    /// Transmit up to [`MAX_FRAMES_PER_PACKET`] frames on one channel and wait for
    /// the device's acknowledgement.
    ///
    /// The acknowledgement confirms the adapter accepted the frames, not that any
    /// node on the bus received them.
    ///
    /// [`CanFrame::channel`] is ignored; `channel` decides.
    ///
    /// # Errors
    ///
    /// [`Error::InvalidChannel`] if `channel` is not a channel this model has,
    /// [`Error::Protocol`] if `frames` is empty or holds too many.
    pub fn transmit(&self, channel: u8, frames: &[CanFrame]) -> (r: Result<TransmitExchange, Error>)
        ensures
            if channel >= channels_of(self@.pid) {
                r == Err::<TransmitExchange, Error>(Error::InvalidChannel(channel))
            } else if frames@.len() == 0 {
                error::protocol_error(r, "transmit called with no frames"@)
            } else if frames@.len() > MAX_FRAMES_PER_PACKET {
                error::protocol_error(r, "too many frames for one transmit packet"@)
            } else {
                r matches Ok(x) && x.sends(frames@, channel, self@.ctrl_timeout_ms)
            },
    {
        match self.check_channel(channel) {
            Ok(()) => {},
            Err(e) => return Err(e),
        }
        if frames.len() == 0 {
            return Err(Error::Protocol("transmit called with no frames"));
        }
        if frames.len() > MAX_FRAMES_PER_PACKET {
            return Err(Error::Protocol("too many frames for one transmit packet"));
        }
        Ok(
            TransmitExchange {
                write: UsbWrite {
                    endpoint: EP_DATA_OUT,
                    data: protocol::pack_tx_packet(frames, channel, true),
                    timeout_ms: Some(self.ctrl_timeout_ms),
                },
                read: UsbRead {
                    endpoint: EP_TX_ACK_IN,
                    room: TX_ACK_LEN,
                    timeout_ms: self.ctrl_timeout_ms,
                    watchdog: false,
                },
            },
        )
    }

    /// Read one batch of received frames and status records.
    ///
    /// Both channels share one stream; use [`RxChunk::frames_on`] to filter. An
    /// idle bus produces [`Error::Timeout`], which is normal and not an error
    /// condition for a polling loop.
    pub fn receive(&self, timeout_ms: u32) -> (x: ReceiveExchange)
        ensures
            x.read == (UsbRead {
                endpoint: EP_DATA_IN,
                room: RX_BUFFER_LEN,
                timeout_ms,
                watchdog: false,
            }),
    {
        self.receive_raw(RX_BUFFER_LEN, timeout_ms)
    }

    /// Read up to `room` bytes of the receive stream, which
    /// [`ReceiveExchange::received_raw`] hands over without decoding them.
    ///
    /// For protocol work and bug reports.
    pub fn receive_raw(&self, room: usize, timeout_ms: u32) -> (x: ReceiveExchange)
        ensures
            x.read == (UsbRead { endpoint: EP_DATA_IN, room, timeout_ms, watchdog: false }),
    {
        ReceiveExchange {
            read: UsbRead { endpoint: EP_DATA_IN, room, timeout_ms, watchdog: false },
        }
    }

    /// Send a control command and read its response.
    ///
    /// The higher-level methods cover normal use. This is exposed for commands the
    /// driver does not model.
    pub fn send_ctrl(&self, cmd: u8, payload: &[u8]) -> (x: CtrlExchange)
        requires
            payload@.len() <= CTRL_PACKET_LEN - 5,
        ensures
            x.asks(cmd, payload@, self@.ctrl_timeout_ms),
    {
        ctrl_exchange(cmd, payload, self.ctrl_timeout_ms)
    }

    fn check_channel(&self, channel: u8) -> (r: Result<(), Error>)
        ensures
            if channel < channels_of(self@.pid) {
                r is Ok
            } else {
                r == Err::<(), Error>(Error::InvalidChannel(channel))
            },
    {
        if channel >= self.channel_count() {
            return Err(Error::InvalidChannel(channel));
        }
        Ok(())
    }
}

// ───────────────────────────── Laws ─────────────────────────────

/// How a start ends, given the answers so far from `step` on; `None` while commands
/// are left to send.
pub open spec fn start_run(step: StartStep, replies: Seq<Result<CtrlResp, Error>>) -> Option<
    Result<(), Error>,
>
    decreases replies.len(),
{
    if replies.len() == 0 {
        None
    } else {
        match start_next(step, replies.first()) {
            Ok(Some(next)) => start_run(next, replies.drop_first()),
            Ok(None) => Some(Ok(())),
            Err(e) => Some(Err(e)),
        }
    }
}

/// Whether the initialize command went well enough: it was done, or the adapter
/// refused it because the channel was already initialized.
pub open spec fn initialized(reply: Result<CtrlResp, Error>) -> bool {
    reply is Ok || reply matches Err(Error::Rejected { .. })
}

/// Four answers settle a start. It succeeds exactly if the channel was initialized,
/// now or before, and bit timing and start were both accepted; otherwise the first
/// of these that failed is reported. The answer to the stop plays no part.
pub proof fn law_start_channel_outcome(
    stop: Result<CtrlResp, Error>,
    init: Result<CtrlResp, Error>,
    timing: Result<CtrlResp, Error>,
    start: Result<CtrlResp, Error>,
)
    ensures
        start_run(StartStep::Stop, seq![stop, init, timing, start]) == Some(
            if !initialized(init) {
                Err::<(), Error>(init->Err_0)
            } else if timing is Err {
                Err(timing->Err_0)
            } else if start is Err {
                Err(start->Err_0)
            } else {
                Ok(())
            },
        ),
{
    reveal_with_fuel(start_run, 5);
    let all = seq![stop, init, timing, start];
    assert(all.drop_first() =~= seq![init, timing, start]);
    assert(all.drop_first().drop_first() =~= seq![timing, start]);
    assert(all.drop_first().drop_first().drop_first() =~= seq![start]);
}

/// The place of a command among those that start a channel.
pub open spec fn start_place(step: StartStep) -> nat {
    match step {
        StartStep::Stop => 0,
        StartStep::Init => 1,
        StartStep::Timing => 2,
        StartStep::Start => 3,
    }
}

/// The commands follow one another in order and none is skipped: the channel is
/// stopped, initialized, given its bit timing and started.
pub proof fn law_start_commands_in_order(step: StartStep, reply: Result<CtrlResp, Error>)
    ensures
        start_next(step, reply) matches Ok(Some(next)) ==> start_place(next) == start_place(step)
            + 1,
        start_next(step, reply) matches Ok(None) ==> step is Start,
{
}

/// Starting a channel takes at most four commands.
pub proof fn law_start_channel_ends(replies: Seq<Result<CtrlResp, Error>>)
    ensures
        replies.len() >= 4 ==> start_run(StartStep::Stop, replies) is Some,
{
    reveal_with_fuel(start_run, 5);
}

/// A restart lands on the requested configuration: a refused initialize command
/// leads to the same bit timing and start commands, and to the same outcome, as an
/// accepted one.
pub proof fn law_restart_is_idempotent(
    resp: CtrlResp,
    cmd: u8,
    status: u8,
    rest: Seq<Result<CtrlResp, Error>>,
)
    ensures
        start_run(
            StartStep::Init,
            seq![Err::<CtrlResp, Error>(Error::Rejected { cmd, status })] + rest,
        ) == start_run(StartStep::Init, seq![Ok::<CtrlResp, Error>(resp)] + rest),
{
    let refused = seq![Err::<CtrlResp, Error>(Error::Rejected { cmd, status })] + rest;
    let accepted = seq![Ok::<CtrlResp, Error>(resp)] + rest;
    assert(refused.drop_first() =~= rest);
    assert(accepted.drop_first() =~= rest);
}

/// A control response is only ever taken for the command that it echoes.
pub proof fn law_response_matches_command(
    x: CtrlExchange,
    done: Result<Vec<u8>, UsbFault>,
    r: Result<CtrlResp, Error>,
)
    requires
        ctrl_outcome(x.cmd, x.read, done, r),
    ensures
        r matches Ok(resp) ==> resp.cmd_echo == x.cmd,
{
}

/// The two products: `0x1261` is the USBCAN-2E-U with two channels, `0x1260` the
/// USBCAN-E-U with one. Anything else is unknown and counts as having one.
pub proof fn law_models(pid: u16)
    ensures
        channels_of(pid) == (if pid == 0x1261 {
            2
        } else {
            1int
        }),
        pid == 0x1261 ==> model_name(pid) == "USBCAN-2E-U"@,
        pid == 0x1260 ==> model_name(pid) == "USBCAN-E-U"@,
        pid != 0x1260 && pid != 0x1261 ==> model_name(pid) == "unknown"@,
{
}

/// The words for the transfer types and directions of an endpoint.
pub proof fn law_endpoint_words(ep: EndpointInfo)
    ensures
        ep.transfer_type < 4 ==> ep.type_word() == seq![
            "control"@,
            "isochronous"@,
            "bulk"@,
            "interrupt"@,
        ][ep.transfer_type as int],
        ep.transfer_type >= 4 ==> ep.type_word() == "unknown"@,
        ep.direction_word() == (if ep.direction == 1 {
            "IN"@
        } else {
            "OUT"@
        }),
{
}

/// What one command of a start puts on the wire. It goes out on `0x04` without a
/// timeout and is answered on `0x84` within the control timeout. The channel is named
/// by its number plus one; a stop carries `0x00`, a start `0x80`; the timing command
/// carries the mode that was asked for and the timing word of the rate that was asked
/// for.
pub proof fn law_start_command_bytes(s: StartState, x: CtrlExchange)
    requires
        s.channel < 2,
        x.asks(s.command(), s.payload(), s.timeout_ms),
    ensures
        x.write.endpoint == 0x04 && x.write.timeout_ms is None,
        x.read.endpoint == 0x84 && x.read.room == 64 && x.read.watchdog,
        x.read.timeout_ms == s.timeout_ms,
        x.write.data@.len() == 64,
        x.write.data@[0] == 0x7e && x.write.data@[3] == 0,
        x.write.data@[1] == x.cmd,
        ({
            let d = x.write.data@;
            match s.step {
                StartStep::Stop => d[1] == 0x24 && d[2] == 2 && d[4] == s.channel + 1 && d[5]
                    == 0x00,
                StartStep::Init => d[1] == 0x02 && d[2] == 7 && d[5] == s.channel + 1,
                StartStep::Timing => {
                    &&& d[1] == 0x23 && d[2] == 6 && d[4] == s.channel + 1
                    &&& d[5] == (if s.mode == ChannelMode::Normal {
                        0x80
                    } else {
                        0x00int
                    })
                    &&& d[6] + 0x100 * d[7] + 0x1_0000 * d[8] + 0x100_0000 * d[9] == s.bitrate.word()
                },
                StartStep::Start => d[1] == 0x24 && d[2] == 2 && d[4] == s.channel + 1 && d[5]
                    == 0x80,
            }
        }),
{
    let d = x.write.data@;
    let p = s.payload();
    ctrl::law_channel_payloads(s.channel, s.mode.mode_byte(), s.bitrate.word());
    ctrl::law_ctrl_packet_layout(s.command(), p);
    assert forall|i: int| 0 <= i < p.len() implies #[trigger] p[i] == d[4 + i] by {
        assert(d.subrange(4, 4 + p.len() as int)[i] == d[4 + i]);
    }
    assert(d[4] == p[0] && d[5] == p[1]);
    if s.step is Timing {
        assert(d[6] == p[2] && d[7] == p[3] && d[8] == p[4] && d[9] == p[5]);
    }
}

/// A start takes its bit rate and mode to the adapter: two starts of a channel whose
/// timing commands agree ask for the same rate and the same mode.
pub proof fn law_timing_command_tells_rate_and_mode(a: StartState, b: StartState)
    requires
        a.step is Timing,
        b.step is Timing,
        a.payload() == b.payload(),
        a.channel < 2,
        b.channel < 2,
    ensures
        a.bitrate == b.bitrate,
        a.mode == b.mode,
        a.channel == b.channel,
{
    ctrl::law_channel_payloads(a.channel, a.mode.mode_byte(), a.bitrate.word());
    ctrl::law_channel_payloads(b.channel, b.mode.mode_byte(), b.bitrate.word());
    protocol::timing::law_packed_rate_unpacks(a.bitrate);
    protocol::timing::law_packed_rate_unpacks(b.bitrate);
    protocol::timing::law_mode_bytes(a.mode);
    protocol::timing::law_mode_bytes(b.mode);
}

/// What any control command puts on the wire, and where its answer is read.
pub proof fn law_control_exchange_bytes(x: CtrlExchange, cmd: u8, payload: Seq<u8>, timeout_ms: u32)
    requires
        payload.len() <= 59,
        x.asks(cmd, payload, timeout_ms),
    ensures
        x.cmd == cmd,
        x.write.endpoint == 0x04 && x.write.timeout_ms is None,
        x.write.data@.len() == 64,
        x.write.data@[0] == 0x7e,
        x.write.data@[1] == cmd,
        x.write.data@[2] == payload.len(),
        x.write.data@.subrange(4, 4 + payload.len() as int) == payload,
        x.read.endpoint == 0x84 && x.read.room == 64 && x.read.watchdog,
        x.read.timeout_ms == timeout_ms,
{
    ctrl::law_ctrl_packet_layout(cmd, payload);
}

/// What the answer to a control command comes to. Nothing within the time, or an empty
/// answer, is a timeout; an answer that fits is decoded as it is.
pub proof fn law_control_answer(
    cmd: u8,
    read: UsbRead,
    done: Result<Vec<u8>, UsbFault>,
    r: Result<CtrlResp, Error>,
)
    requires
        ctrl_outcome(cmd, read, done, r),
    ensures
        done is Ok && done->Ok_0@.len() == 0 ==> r == Err::<CtrlResp, Error>(
            Error::Timeout { ms: read.timeout_ms },
        ),
        done is Ok && 0 < done->Ok_0@.len() <= read.room ==> ctrl::reply_outcome(
            done->Ok_0@,
            cmd,
            r,
        ),
        done is Ok && 0 < read.room < done->Ok_0@.len() ==> ctrl::reply_outcome(
            done->Ok_0@.take(read.room as int),
            cmd,
            r,
        ),
        done matches Err(fault) ==> r is Err && (if fault.aborted() {
            r->Err_0 == (Error::Timeout { ms: read.timeout_ms })
        } else {
            r->Err_0 is Usb && r->Err_0->code == fault.io_return() && r->Err_0->message@
                == fault.text("interrupt IN"@)
        }),
{
}

/// What a transmission puts on the wire: a packet on `0x02` that announces as many
/// frames as there are, names the channel, and holds one record for each frame, in
/// order. The acknowledgement is read on `0x82`. Both have the control timeout.
pub proof fn law_transmit_exchange_bytes(
    x: TransmitExchange,
    frames: Seq<CanFrame>,
    channel: u8,
    timeout_ms: u32,
)
    requires
        1 <= frames.len() <= 127,
        x.sends(frames, channel, timeout_ms),
    ensures
        x.write.endpoint == 0x02 && x.write.timeout_ms == Some(timeout_ms),
        x.write.data@.len() >= 80,
        x.write.data@[0] == 0x8e,
        x.write.data@[1] * 256 + x.write.data@[2] == frames.len(),
        x.write.data@[3] == 1,
        x.write.data@[4] == channel,
        forall|i: int|
            0 <= i < frames.len() ==> #[trigger] x.write.data@.subrange(8 + 24 * i, 32 + 24 * i)
                == (CanFrame { channel, timestamp_us: 0, ..frames[i] }).record(),
        x.read.endpoint == 0x82 && x.read.room == 64 && !x.read.watchdog,
        x.read.timeout_ms == timeout_ms,
{
    transmit::law_tx_packet_layout(frames, channel, true);
    assert forall|i: int| 0 <= i < frames.len() implies #[trigger] x.write.data@.subrange(
        8 + 24 * i,
        32 + 24 * i,
    ) == (CanFrame { channel, timestamp_us: 0, ..frames[i] }).record() by {
        let packet = transmit::tx_packet(frames, channel, true);
        assert(packet.subrange(8 + 24 * i, 32 + 24 * i) == (CanFrame {
            channel,
            timestamp_us: 0,
            ..frames[i]
        }).record());
    }
}

/// What the acknowledgement of a transmission comes to. Nothing within the time, or an
/// empty one, is a timeout; one that fits is decoded as it is.
pub proof fn law_transmit_answer(
    read: UsbRead,
    done: Result<Vec<u8>, UsbFault>,
    r: Result<TxAck, Error>,
)
    requires
        transmit_outcome(read, done, r),
    ensures
        done is Ok && done->Ok_0@.len() == 0 ==> r == Err::<TxAck, Error>(
            Error::Timeout { ms: read.timeout_ms },
        ),
        done is Ok && 5 <= done->Ok_0@.len() <= read.room ==> r is Ok && r->Ok_0.status
            == done->Ok_0@[0] && r->Ok_0.channel_marker == done->Ok_0@[1] && r->Ok_0.dlc_echo
            == done->Ok_0@[2],
        done is Ok && 5 <= read.room < done->Ok_0@.len() ==> r is Ok && r->Ok_0.status
            == done->Ok_0@[0],
        done is Ok && 0 < read.room < 5 && read.room < done->Ok_0@.len() ==> r is Err
            && r->Err_0 is Protocol,
        done is Ok && 0 < done->Ok_0@.len() < 5 && read.room > 0 ==> r is Err && r->Err_0 is Protocol,
        done matches Err(fault) ==> r is Err && (if fault.timed_out() {
            r->Err_0 == (Error::Timeout { ms: read.timeout_ms })
        } else {
            r->Err_0 is Usb && r->Err_0->code == fault.io_return() && r->Err_0->message@
                == fault.text("bulk IN"@)
        }),
{
}

/// What a read of the receive stream comes to: everything that came in is decoded, and
/// a quiet bus is a timeout.
pub proof fn law_receive_answer(
    read: UsbRead,
    done: Result<Vec<u8>, UsbFault>,
    r: Result<RxChunk, Error>,
)
    requires
        receive_outcome(read, done, r),
    ensures
        done is Ok && done->Ok_0@.len() <= read.room ==> {
            let records = protocol::receive::records(done->Ok_0@);
            &&& r matches Ok(chunk)
            &&& chunk.frames@ == protocol::receive::frames_in(records)
            &&& chunk.status@ == protocol::receive::status_in(records)
            &&& chunk.unknown@ == protocol::receive::unknown_in(records)
        },
        done is Ok && done->Ok_0@.len() > read.room ==> {
            let records = protocol::receive::records(done->Ok_0@.take(read.room as int));
            &&& r matches Ok(chunk)
            &&& chunk.frames@ == protocol::receive::frames_in(records)
            &&& chunk.status@ == protocol::receive::status_in(records)
            &&& chunk.unknown@ == protocol::receive::unknown_in(records)
        },
        done matches Err(fault) ==> r is Err && (if fault.timed_out() {
            r->Err_0 == (Error::Timeout { ms: read.timeout_ms })
        } else {
            r->Err_0 is Usb && r->Err_0->code == fault.io_return() && r->Err_0->message@
                == fault.text("bulk IN"@)
        }),
{
}

/// A command has two seconds unless its caller says otherwise. A read of the receive
/// stream has room for 256 records, with nothing left over.
pub proof fn law_times_and_sizes()
    ensures
        DEFAULT_CTRL_TIMEOUT_MS == 2 * 1000,
        RX_BUFFER_LEN == 256 * protocol::FRAME_LEN,
        protocol::FRAME_LEN == 24,
        TX_ACK_LEN == 64,
{
}

} // verus!
