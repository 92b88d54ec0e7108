//! The state of one SLCAN bridge.
//!
//! [`SlcanBridge`] takes the bytes a client sends and the batches the adapter
//! receives. It says what the adapter is to do ([`BridgeAction`]), takes back what
//! came of that, and collects what is to be written to the client.

use vstd::prelude::*;

use crate::device;
use crate::device::{
    CtrlExchange, Device, DeviceState, ReceiveExchange, StartSequence, StartState, StartStep,
    TransmitExchange, RX_BUFFER_LEN,
};
use crate::error::Error;
use crate::protocol::ctrl;
use crate::protocol::receive;
use crate::protocol::{
    Bitrate, CanFrame, ChannelMode, CtrlCmd, CtrlResp, RxChunk, RxStatus, RxStatusKind, TxAck,
    EP_DATA_IN,
};
use crate::slcan::line;
use crate::slcan::line::{BEL, CR};
use crate::slcan::pty;
use crate::slcan::pty::PtyFault;
use crate::transfer::UsbRead;

verus! {

/// Ends a line, as a carriage return does.
pub const LF: u8 = 0x0a;

/// Longest line that is kept; what a client sends beyond it is dropped.
pub const MAX_LINE_LEN: usize = 64;

/// How long one read of the receive stream waits, and how long the bridge sleeps
/// while the channel is closed.
pub const POLL_MS: u32 = 20;

/// SLCAN status bit: error warning.
pub const ERROR_WARNING: u8 = 0x04;

/// SLCAN status bit: data overrun.
pub const DATA_OVERRUN: u8 = 0x08;

/// SLCAN status bit: error passive.
pub const ERROR_PASSIVE: u8 = 0x20;

/// SLCAN status bit: bus error.
pub const BUS_ERROR: u8 = 0x80;

// ───────────────────────────── Model ─────────────────────────────

/// What a bridge knows.
pub struct BridgeState {
    /// The adapter.
    pub device: DeviceState,
    /// The channel that is bridged.
    pub channel: u8,
    /// Path of the pseudo-terminal.
    pub path: Seq<char>,
    /// The line that the client is sending.
    pub line: Seq<u8>,
    /// What is to be written to the client.
    pub out: Seq<u8>,
    /// Whether the client has opened the channel.
    pub open: bool,
    /// Bit rate that the channel is opened with.
    pub bitrate: Bitrate,
    /// Mode that the channel was last opened in.
    pub mode: ChannelMode,
    /// Whether frames are written with a timestamp.
    pub timestamps: bool,
    /// Status bits since the client last asked for them.
    pub status: u8,
}

impl BridgeState {
    /// The same with `bytes` added to what is to be written.
    pub open spec fn writing(self, bytes: Seq<u8>) -> Self {
        BridgeState { out: self.out + bytes, ..self }
    }

    /// Whether the adapter has the channel.
    pub open spec fn channel_exists(self) -> bool {
        self.channel < device::channels_of(self.device.pid)
    }
}

/// How a command is answered.
pub enum Verdict {
    /// With a carriage return.
    Accepted,
    /// With a bell.
    Refused,
    /// When the adapter has started the channel in this mode, or failed to.
    Start(ChannelMode),
    /// When the adapter has stopped the channel, or failed to.
    Stop,
    /// When the adapter has acknowledged this frame, or failed to.
    Transmit(CanFrame),
}

/// The bit rate that a digit after `S` stands for.
pub open spec fn rate_digit(digit: u8) -> Option<Bitrate> {
    if 0x30 <= digit <= 0x38 {
        Some(Bitrate::ALL@[digit - 0x30])
    } else {
        None
    }
}

/// The serial number reported for `N`: the first two bytes of the identification,
/// zeros where it has fewer.
pub open spec fn serial_text(identification: Seq<u8>) -> Seq<u8> {
    let byte = |i: int| (if i < identification.len() { identification[i] } else { 0u8 });
    seq![0x4eu8] + line::hex_field(byte(0) as nat, 2) + line::hex_field(byte(1) as nat, 2)
}

/// The text reported for `F`.
pub open spec fn status_text(status: u8) -> Seq<u8> {
    seq![0x46u8] + line::hex_field(status as nat, 2)
}

/// `V1010`
pub open spec fn version_text() -> Seq<u8> {
    seq![0x56u8, 0x31u8, 0x30u8, 0x31u8, 0x30u8]
}

/// `v1010`
pub open spec fn firmware_text() -> Seq<u8> {
    seq![0x76u8, 0x31u8, 0x30u8, 0x31u8, 0x30u8]
}

/// Command `S`: set the bit rate, while the channel is closed.
pub open spec fn set_bitrate_command(s: BridgeState, arg: Seq<u8>) -> (BridgeState, Verdict) {
    if s.open || arg.len() == 0 {
        (s, Verdict::Refused)
    } else {
        match rate_digit(arg[0]) {
            Some(bitrate) => (BridgeState { bitrate, ..s }, Verdict::Accepted),
            None => (s, Verdict::Refused),
        }
    }
}

/// Commands `O` and `L`: open the channel, while it is closed.
pub open spec fn open_command(s: BridgeState, mode: ChannelMode) -> (BridgeState, Verdict) {
    if s.open || !s.channel_exists() {
        (s, Verdict::Refused)
    } else {
        (s, Verdict::Start(mode))
    }
}

/// Command `C`: close the channel, while it is open.
pub open spec fn close_command(s: BridgeState) -> (BridgeState, Verdict) {
    if !s.open {
        (s, Verdict::Refused)
    } else {
        let t = BridgeState { open: false, ..s };
        if s.channel_exists() {
            (t, Verdict::Stop)
        } else {
            (t, Verdict::Refused)
        }
    }
}

/// Commands `t`, `T`, `r` and `R`: transmit a frame, while the channel is open.
pub open spec fn transmit_command(s: BridgeState, line: Seq<u8>) -> (BridgeState, Verdict) {
    if !s.open {
        (s, Verdict::Refused)
    } else {
        match line::line_frame(line) {
            None => (s, Verdict::Refused),
            Some(frame) => if s.channel_exists() {
                (s, Verdict::Transmit(frame))
            } else {
                (BridgeState { status: s.status | BUS_ERROR, ..s }, Verdict::Refused)
            },
        }
    }
}

/// Command `Z`: timestamps on or off.
pub open spec fn timestamps_command(s: BridgeState, arg: Seq<u8>) -> (BridgeState, Verdict) {
    if arg.len() > 0 && arg[0] == 0x30 {
        (BridgeState { timestamps: false, ..s }, Verdict::Accepted)
    } else if arg.len() > 0 && arg[0] == 0x31 {
        (BridgeState { timestamps: true, ..s }, Verdict::Accepted)
    } else {
        (s, Verdict::Refused)
    }
}

/// What a line does, before it is answered.
pub open spec fn command(s: BridgeState, line: Seq<u8>) -> (BridgeState, Verdict) {
    if line.len() == 0 {
        (s, Verdict::Accepted)
    } else if line[0] == 0x53 {
        set_bitrate_command(s, line.skip(1))
    } else if line[0] == 0x4f {
        open_command(s, ChannelMode::Normal)
    } else if line[0] == 0x4c {
        open_command(s, ChannelMode::Passive)
    } else if line[0] == 0x43 {
        close_command(s)
    } else if line[0] == 0x74 || line[0] == 0x54 || line[0] == 0x72 || line[0] == 0x52 {
        transmit_command(s, line)
    } else if line[0] == 0x56 {
        (s.writing(version_text()), Verdict::Accepted)
    } else if line[0] == 0x76 {
        (s.writing(firmware_text()), Verdict::Accepted)
    } else if line[0] == 0x4e {
        (s.writing(serial_text(s.device.identification)), Verdict::Accepted)
    } else if line[0] == 0x46 {
        (BridgeState { status: 0, ..s.writing(status_text(s.status)) }, Verdict::Accepted)
    } else if line[0] == 0x5a {
        timestamps_command(s, line.skip(1))
    } else if line[0] == 0x4d || line[0] == 0x6d {
        (s, Verdict::Accepted)
    } else {
        (s, Verdict::Refused)
    }
}

/// What a complete line does, with its answer if it can be given at once.
pub open spec fn run_line(s: BridgeState, line: Seq<u8>) -> (BridgeState, Verdict) {
    let (t, verdict) = command(s, line);
    match verdict {
        Verdict::Accepted => (t.writing(seq![CR]), verdict),
        Verdict::Refused => (t.writing(seq![BEL]), verdict),
        _ => (t, verdict),
    }
}

/// What one byte from the client does, and how the line it ends is answered.
///
/// Some clients send a lone bell to resynchronize.
pub open spec fn run_byte(s: BridgeState, byte: u8) -> (BridgeState, Option<Verdict>) {
    if byte == CR || byte == LF {
        let (t, verdict) = run_line(BridgeState { line: Seq::empty(), ..s }, s.line);
        (t, Some(verdict))
    } else if byte == BEL {
        (BridgeState { line: Seq::empty(), ..s }, None)
    } else if s.line.len() < MAX_LINE_LEN {
        (BridgeState { line: s.line.push(byte), ..s }, None)
    } else {
        (s, None)
    }
}

/// Whether the answer has to wait for the adapter.
pub open spec fn deferred(verdict: Option<Verdict>) -> bool {
    match verdict {
        Some(Verdict::Start(_)) | Some(Verdict::Stop) | Some(Verdict::Transmit(_)) => true,
        _ => false,
    }
}

/// What bytes from the client do, up to the first one whose answer has to wait for
/// the adapter. The number says how many bytes that is.
pub open spec fn run_bytes(s: BridgeState, bytes: Seq<u8>) -> (BridgeState, nat, Option<Verdict>)
    decreases bytes.len(),
{
    if bytes.len() == 0 {
        (s, 0, None)
    } else {
        let (t, verdict) = run_byte(s, bytes.first());
        if deferred(verdict) {
            (t, 1, verdict)
        } else {
            let (u, n, last) = run_bytes(t, bytes.drop_first());
            (u, n + 1, last)
        }
    }
}

/// What the end of a start does.
pub open spec fn after_start(s: BridgeState, mode: ChannelMode, started: bool) -> BridgeState {
    if started {
        BridgeState { open: true, mode, ..s.writing(seq![CR]) }
    } else {
        s.writing(seq![BEL])
    }
}

/// What the end of a stop does.
pub open spec fn after_stop(s: BridgeState, stopped: bool) -> BridgeState {
    s.writing(
        seq![
            if stopped {
                CR
            } else {
                BEL
            },
        ],
    )
}

/// What the end of a transmission does.
pub open spec fn after_transmit(s: BridgeState, accepted: bool) -> BridgeState {
    if accepted {
        s.writing(seq![CR])
    } else {
        BridgeState { status: s.status | BUS_ERROR, ..s.writing(seq![BEL]) }
    }
}

/// The status bits that a status record stands for.
pub open spec fn status_bits(kind: RxStatusKind) -> u8 {
    match kind {
        RxStatusKind::Overflow => DATA_OVERRUN,
        RxStatusKind::BusErrorOrPassive => ERROR_PASSIVE | BUS_ERROR,
        RxStatusKind::CanError => ERROR_WARNING,
        _ => 0,
    }
}

/// `status` with the bits of all `records`.
pub open spec fn with_status(status: u8, records: Seq<RxStatus>) -> u8
    decreases records.len(),
{
    if records.len() == 0 {
        status
    } else {
        with_status(status, records.drop_last()) | status_bits(records.last().kind)
    }
}

/// What a batch that the adapter received does.
pub open spec fn after_chunk(s: BridgeState, chunk: RxChunk) -> BridgeState {
    BridgeState {
        status: with_status(s.status, chunk.status@),
        ..s.writing(
            line::frame_lines(receive::on_channel(chunk.frames@, s.channel), s.timestamps),
        )
    }
}

// ───────────────────────────── Bridge ─────────────────────────────

/// What the adapter is to do for the client.
#[derive(Debug)]
pub enum BridgeAction {
    /// Start the channel; conclude with [`SlcanBridge::started`].
    Start {
        /// The commands to work through.
        sequence: StartSequence,
        /// The mode that the client asked for.
        mode: ChannelMode,
    },
    /// Stop the channel; conclude with [`SlcanBridge::stopped`].
    Stop(CtrlExchange),
    /// Transmit a frame; conclude with [`SlcanBridge::transmitted`].
    Transmit(TransmitExchange),
}

/// Whether `action` is what `verdict` needs in state `s`.
pub open spec fn action_for(
    s: BridgeState,
    verdict: Option<Verdict>,
    action: Option<BridgeAction>,
) -> bool {
    match verdict {
        Some(Verdict::Start(mode)) => {
            &&& action matches Some(BridgeAction::Start { sequence, mode: m })
            &&& m == mode
            &&& sequence@ == StartState {
                step: StartStep::Stop,
                channel: s.channel,
                bitrate: s.bitrate,
                mode,
                timeout_ms: s.device.ctrl_timeout_ms,
            }
        },
        Some(Verdict::Stop) => {
            &&& action matches Some(BridgeAction::Stop(x))
            &&& x.asks(
                CtrlCmd::StartStop.command_byte(),
                ctrl::stop_bytes(s.channel),
                s.device.ctrl_timeout_ms,
            )
        },
        Some(Verdict::Transmit(frame)) => {
            &&& action matches Some(BridgeAction::Transmit(x))
            &&& x.sends(seq![frame], s.channel, s.device.ctrl_timeout_ms)
        },
        _ => action is None,
    }
}

/// What the bridge does once the client's commands are handled.
#[derive(Debug, Clone, Copy)]
pub enum BridgeStep {
    /// Read the receive stream; conclude with [`SlcanBridge::pump_frames`].
    Receive(ReceiveExchange),
    /// Sleep.
    Sleep {
        /// For so many milliseconds.
        ms: u32,
    },
}

/// How a command ended, or what it needs.
enum Handled {
    Accepted,
    Refused,
    Later(BridgeAction),
}

/// Whether `handled` is how `verdict` looks to the caller, in state `s`.
spec fn handled_as(s: BridgeState, verdict: Verdict, handled: Handled) -> bool {
    match handled {
        Handled::Accepted => verdict is Accepted,
        Handled::Refused => verdict is Refused,
        Handled::Later(action) => deferred(Some(verdict)) && action_for(
            s,
            Some(verdict),
            Some(action),
        ),
    }
}

/// A running SLCAN endpoint.
#[derive(Debug)]
pub struct SlcanBridge {
    device: Device,
    channel: u8,
    path: String,
    line: Vec<u8>,
    out: Vec<u8>,
    open: bool,
    bitrate: Bitrate,
    mode: ChannelMode,
    timestamps: bool,
    status: u8,
}

impl View for SlcanBridge {
    type V = BridgeState;

    closed spec fn view(&self) -> BridgeState {
        BridgeState {
            device: self.device@,
            channel: self.channel,
            path: self.path@,
            line: self.line@,
            out: self.out@,
            open: self.open,
            bitrate: self.bitrate,
            mode: self.mode,
            timestamps: self.timestamps,
            status: self.status,
        }
    }
}

impl SlcanBridge {
    /// Bind the pseudo-terminal at `path` to `channel` of `device`.
    ///
    /// The channel is not started until a client sends `O` or `L`.
    pub fn new(device: Device, channel: u8, path: String) -> (bridge: Self)
        ensures
            bridge@ == (BridgeState {
                device: device@,
                channel,
                path: path@,
                line: Seq::empty(),
                out: Seq::empty(),
                open: false,
                bitrate: Bitrate::Kbps500,
                mode: ChannelMode::Normal,
                timestamps: false,
                status: 0,
            }),
    {
        let bridge = SlcanBridge {
            device,
            channel,
            path,
            line: Vec::new(),
            out: Vec::new(),
            open: false,
            bitrate: Bitrate::Kbps500,
            mode: ChannelMode::Normal,
            timestamps: false,
            status: 0,
        };
        assert(bridge@.line =~= Seq::empty());
        assert(bridge@.out =~= Seq::empty());
        bridge
    }

    /// Path of the pseudo-terminal a client should connect to.
    pub fn path(&self) -> (path: &str)
        ensures
            path@ == self@.path,
    {
        self.path.as_str()
    }

    /// Preset the bit rate, as if the client had sent the matching `S` command.
    pub fn set_bitrate(&mut self, bitrate: Bitrate)
        ensures
            final(self)@ == (BridgeState { bitrate, ..old(self)@ }),
    {
        self.bitrate = bitrate;
    }

    /// Act on bytes that the client has sent, up to the first one that needs the
    /// adapter. Returns how many bytes that is, and what the adapter is to do.
    pub fn pump_commands(&mut self, bytes: &[u8]) -> (r: (usize, Option<BridgeAction>))
        ensures
            ({
                let (s, n, verdict) = run_bytes(old(self)@, bytes@);
                &&& final(self)@ == s
                &&& r.0 == n
                &&& action_for(s, verdict, r.1)
            }),
    {
        let mut i: usize = 0;
        assert(bytes@.skip(0) =~= bytes@);
        while i < bytes.len()
            invariant
                i <= bytes@.len(),
                ({
                    let (s, n, verdict) = run_bytes(self@, bytes@.skip(i as int));
                    run_bytes(old(self)@, bytes@) == (s, (n + i) as nat, verdict)
                }),
            decreases bytes@.len() - i,
        {
            assert(bytes@.skip(i as int).drop_first() =~= bytes@.skip(i + 1));
            match self.accept_byte(bytes[i]) {
                Some(action) => {
                    return (i + 1, Some(action));
                },
                None => {},
            }
            i += 1;
        }
        (i, None)
    }

    /// Act on one byte that the client has sent. Returns what the adapter is to do.
    pub fn accept_byte(&mut self, byte: u8) -> (action: Option<BridgeAction>)
        ensures
            ({
                let (s, verdict) = run_byte(old(self)@, byte);
                &&& final(self)@ == s
                &&& action_for(s, verdict, action)
            }),
    {
        if byte == CR || byte == LF {
            let mut line: Vec<u8> = Vec::new();
            core::mem::swap(&mut line, &mut self.line);
            let ghost s = command(self@, line@).0;
            assert(self@.line =~= Seq::empty());
            match self.handle_command(line.as_slice()) {
                Handled::Accepted => {
                    self.out.push(CR);
                    assert(self@.out =~= s.out + seq![CR]);
                    None
                },
                Handled::Refused => {
                    self.out.push(BEL);
                    assert(self@.out =~= s.out + seq![BEL]);
                    None
                },
                Handled::Later(action) => Some(action),
            }
        } else if byte == BEL {
            self.line.clear();
            assert(self@.line =~= Seq::empty());
            None
        } else {
            if self.line.len() < MAX_LINE_LEN {
                self.line.push(byte);
            }
            None
        }
    }

    /// Conclude the start of the channel.
    pub fn started(&mut self, mode: ChannelMode, result: Result<(), Error>)
        ensures
            final(self)@ == after_start(old(self)@, mode, result is Ok),
    {
        match result {
            Ok(()) => {
                self.open = true;
                self.mode = mode;
                self.out.push(CR);
            },
            Err(_) => {
                self.out.push(BEL);
            },
        }
        assert(self@.out =~= after_start(old(self)@, mode, result is Ok).out);
    }

    /// Conclude the stop of the channel.
    pub fn stopped(&mut self, result: Result<CtrlResp, Error>)
        ensures
            final(self)@ == after_stop(old(self)@, result is Ok),
    {
        match result {
            Ok(_) => {
                self.out.push(CR);
            },
            Err(_) => {
                self.out.push(BEL);
            },
        }
        assert(self@.out =~= after_stop(old(self)@, result is Ok).out);
    }

    /// Conclude the transmission of a frame.
    pub fn transmitted(&mut self, result: Result<TxAck, Error>)
        ensures
            final(self)@ == after_transmit(
                old(self)@,
                result matches Ok(ack) && ack.status == 0x0e,
            ),
    {
        let accepted: bool = match result {
            Ok(ack) => ack.is_success(),
            Err(_) => false,
        };
        if accepted {
            self.out.push(CR);
        } else {
            self.status = self.status | BUS_ERROR;
            self.out.push(BEL);
        }
        assert(self@.out =~= after_transmit(old(self)@, accepted).out);
    }

    /// What to do once the client's commands are handled: move received frames while
    /// the channel is open, else sleep.
    pub fn next_step(&self) -> (step: BridgeStep)
        ensures
            if self@.open {
                step matches BridgeStep::Receive(x) && x.read == (UsbRead {
                    endpoint: EP_DATA_IN,
                    room: RX_BUFFER_LEN,
                    timeout_ms: POLL_MS,
                    watchdog: false,
                })
            } else {
                step == (BridgeStep::Sleep { ms: POLL_MS })
            },
    {
        if self.open {
            BridgeStep::Receive(self.device.receive(POLL_MS))
        } else {
            BridgeStep::Sleep { ms: POLL_MS }
        }
    }

    /// Move one batch of received frames to the client.
    pub fn pump_frames(&mut self, received: Result<RxChunk, Error>) -> (r: Result<(), Error>)
        ensures
            match received {
                Ok(chunk) => r is Ok && final(self)@ == after_chunk(old(self)@, chunk),
                Err(Error::Timeout { .. }) => r is Ok && final(self)@ == old(self)@,
                Err(e) => r == Err::<(), Error>(e) && final(self)@ == old(self)@,
            },
    {
        match received {
            Ok(chunk) => {
                self.note_status(chunk.status.as_slice());
                let frames: Vec<CanFrame> = chunk.frames_on(self.channel);
                self.emit_frames(frames.as_slice());
                assert(self@.out =~= after_chunk(old(self)@, chunk).out);
                Ok(())
            },
            Err(Error::Timeout { .. }) => Ok(()),
            Err(e) => Err(e),
        }
    }

    /// What is to be written to the client.
    pub fn output(&self) -> (out: &[u8])
        ensures
            out@ == self@.out,
    {
        self.out.as_slice()
    }

    /// Conclude a write of all of [`Self::output`].
    ///
    /// A client that has gone away must not take the bridge down with it: what was
    /// meant for it is dropped.
    pub fn flush(&mut self, written: Result<(), PtyFault>) -> (r: Result<(), Error>)
        ensures
            match written {
                Err(fault) => if old(self)@.out.len() > 0 && !fault.disconnected() {
                    r == Err::<(), Error>(Error::Io(fault.message)) && final(self)@ == old(self)@
                } else {
                    r is Ok && final(self)@ == (BridgeState { out: Seq::empty(), ..old(self)@ })
                },
                Ok(_) => r is Ok && final(self)@ == (BridgeState {
                    out: Seq::empty(),
                    ..old(self)@
                }),
            },
    {
        if self.out.len() == 0 {
            assert(self@.out =~= Seq::empty());
            return Ok(());
        }
        match written {
            Ok(()) => {},
            Err(fault) => {
                if !pty::is_disconnected(&fault) {
                    return Err(Error::Io(fault.message));
                }
            },
        }
        self.out.clear();
        assert(self@.out =~= Seq::empty());
        Ok(())
    }

    /// What is left to do when the bridge is told to stop: take an open channel off
    /// the bus. What comes of that does not matter.
    pub fn shutdown(&self) -> (last: Option<CtrlExchange>)
        ensures
            if self@.open && self@.channel_exists() {
                last matches Some(x) && x.asks(
                    CtrlCmd::StartStop.command_byte(),
                    ctrl::stop_bytes(self@.channel),
                    self@.device.ctrl_timeout_ms,
                )
            } else {
                last is None
            },
    {
        if self.open {
            match self.device.stop_channel(self.channel) {
                Ok(x) => Some(x),
                Err(_) => None,
            }
        } else {
            None
        }
    }

    fn handle_command(&mut self, line: &[u8]) -> (handled: Handled)
        ensures
            ({
                let (s, verdict) = command(old(self)@, line@);
                &&& final(self)@ == s
                &&& handled_as(s, verdict, handled)
            }),
    {
        if line.len() == 0 {
            return Handled::Accepted;
        }
        match line[0] {
            0x53 => self.cmd_set_bitrate(&line[1..line.len()]),
            0x4f => self.cmd_open(ChannelMode::Normal),
            0x4c => self.cmd_open(ChannelMode::Passive),
            0x43 => self.cmd_close(),
            0x74 | 0x54 | 0x72 | 0x52 => self.cmd_transmit(line),
            0x56 => {
                let version: [u8; 5] = [0x56, 0x31, 0x30, 0x31, 0x30];
                self.out.extend_from_slice(&version);
                assert(version@ =~= version_text());
                assert(self@.out =~= old(self)@.out + version_text());
                Handled::Accepted
            },
            0x76 => {
                let version: [u8; 5] = [0x76, 0x31, 0x30, 0x31, 0x30];
                self.out.extend_from_slice(&version);
                assert(version@ =~= firmware_text());
                assert(self@.out =~= old(self)@.out + firmware_text());
                Handled::Accepted
            },
            0x4e => self.cmd_serial(),
            0x46 => self.cmd_status(),
            0x5a => self.cmd_timestamps(&line[1..line.len()]),
            // Acceptance filters are a host-side concern here.
            0x4d | 0x6d => Handled::Accepted,
            // Raw BTR registers (`s`) do not apply to this hardware.
            _ => Handled::Refused,
        }
    }

    fn cmd_set_bitrate(&mut self, arg: &[u8]) -> (handled: Handled)
        ensures
            ({
                let (s, verdict) = set_bitrate_command(old(self)@, arg@);
                &&& final(self)@ == s
                &&& handled_as(s, verdict, handled)
            }),
    {
        if self.open || arg.len() == 0 {
            return Handled::Refused;
        }
        let digit: u8 = arg[0];
        if digit < 0x30 || digit > 0x38 {
            return Handled::Refused;
        }
        let rates = Bitrate::ALL;
        self.bitrate = rates[(digit - 0x30) as usize];
        Handled::Accepted
    }

    fn cmd_open(&mut self, mode: ChannelMode) -> (handled: Handled)
        ensures
            ({
                let (s, verdict) = open_command(old(self)@, mode);
                &&& final(self)@ == s
                &&& handled_as(s, verdict, handled)
            }),
    {
        if self.open {
            return Handled::Refused;
        }
        match self.device.start_channel(self.channel, self.bitrate, mode) {
            Ok(sequence) => Handled::Later(BridgeAction::Start { sequence, mode }),
            Err(_) => Handled::Refused,
        }
    }

    fn cmd_close(&mut self) -> (handled: Handled)
        ensures
            ({
                let (s, verdict) = close_command(old(self)@);
                &&& final(self)@ == s
                &&& handled_as(s, verdict, handled)
            }),
    {
        if !self.open {
            return Handled::Refused;
        }
        self.open = false;
        match self.device.stop_channel(self.channel) {
            Ok(x) => Handled::Later(BridgeAction::Stop(x)),
            Err(_) => Handled::Refused,
        }
    }

    fn cmd_transmit(&mut self, line: &[u8]) -> (handled: Handled)
        ensures
            ({
                let (s, verdict) = transmit_command(old(self)@, line@);
                &&& final(self)@ == s
                &&& handled_as(s, verdict, handled)
            }),
    {
        if !self.open {
            return Handled::Refused;
        }
        let frame: CanFrame = match line::parse_slcan_frame(line) {
            Some(frame) => frame,
            None => return Handled::Refused,
        };
        let frames: [CanFrame; 1] = [frame];
        assert(frames@ =~= seq![frame]);
        match self.device.transmit(self.channel, &frames) {
            Ok(x) => Handled::Later(BridgeAction::Transmit(x)),
            Err(_) => {
                self.status = self.status | BUS_ERROR;
                Handled::Refused
            },
        }
    }

    fn cmd_serial(&mut self) -> (handled: Handled)
        ensures
            handled is Accepted,
            final(self)@ == old(self)@.writing(serial_text(old(self)@.device.identification)),
    {
        let id = self.device.identification();
        let first: u8 = if id.len() > 0 {
            id[0]
        } else {
            0
        };
        let second: u8 = if id.len() > 1 {
            id[1]
        } else {
            0
        };
        self.out.push(0x4e);
        line::push_hex(&mut self.out, first as u32, 2);
        line::push_hex(&mut self.out, second as u32, 2);
        assert(self@.out =~= old(self)@.out + serial_text(old(self)@.device.identification));
        Handled::Accepted
    }

    fn cmd_status(&mut self) -> (handled: Handled)
        ensures
            handled is Accepted,
            final(self)@ == (BridgeState {
                status: 0,
                ..old(self)@.writing(status_text(old(self)@.status))
            }),
    {
        let flags: u8 = self.status;
        self.status = 0;
        self.out.push(0x46);
        line::push_hex(&mut self.out, flags as u32, 2);
        assert(self@.out =~= old(self)@.out + status_text(old(self)@.status));
        Handled::Accepted
    }

    fn cmd_timestamps(&mut self, arg: &[u8]) -> (handled: Handled)
        ensures
            ({
                let (s, verdict) = timestamps_command(old(self)@, arg@);
                &&& final(self)@ == s
                &&& handled_as(s, verdict, handled)
            }),
    {
        if arg.len() > 0 && arg[0] == 0x30 {
            self.timestamps = false;
            Handled::Accepted
        } else if arg.len() > 0 && arg[0] == 0x31 {
            self.timestamps = true;
            Handled::Accepted
        } else {
            Handled::Refused
        }
    }

    /// Add the status bits of `records`.
    fn note_status(&mut self, records: &[RxStatus])
        ensures
            final(self)@ == (BridgeState {
                status: with_status(old(self)@.status, records@),
                ..old(self)@
            }),
    {
        let mut i: usize = 0;
        while i < records.len()
            invariant
                i <= records@.len(),
                self@ == (BridgeState {
                    status: with_status(old(self)@.status, records@.take(i as int)),
                    ..old(self)@
                }),
            decreases records@.len() - i,
        {
            let bits: u8 = match records[i].kind {
                RxStatusKind::Overflow => DATA_OVERRUN,
                RxStatusKind::BusErrorOrPassive => ERROR_PASSIVE | BUS_ERROR,
                RxStatusKind::CanError => ERROR_WARNING,
                _ => 0,
            };
            self.status = self.status | bits;
            assert(records@.take(i + 1).drop_last() =~= records@.take(i as int));
            i += 1;
        }
        assert(records@.take(i as int) =~= records@);
    }

    /// Write `frames` to the client, each as a line.
    fn emit_frames(&mut self, frames: &[CanFrame])
        ensures
            final(self)@ == old(self)@.writing(
                line::frame_lines(frames@, old(self)@.timestamps),
            ),
    {
        let mut i: usize = 0;
        assert(self@.out =~= old(self)@.out + line::frame_lines(
            frames@.take(0),
            old(self)@.timestamps,
        ));
        while i < frames.len()
            invariant
                i <= frames@.len(),
                self@ == old(self)@.writing(
                    line::frame_lines(frames@.take(i as int), old(self)@.timestamps),
                ),
            decreases frames@.len() - i,
        {
            line::push_frame(&mut self.out, &frames[i], self.timestamps);
            assert(frames@.take(i + 1).drop_last() =~= frames@.take(i as int));
            i += 1;
            assert(self@.out =~= old(self)@.out + line::frame_lines(
                frames@.take(i as int),
                old(self)@.timestamps,
            ));
        }
        assert(frames@.take(i as int) =~= frames@);
    }
}

// ───────────────────────────── Laws ─────────────────────────────

/// Whether `text` holds neither of the bytes that answer a line.
pub open spec fn answer_free(text: Seq<u8>) -> bool {
    forall|i: int| 0 <= i < text.len() ==> #[trigger] text[i] != CR && text[i] != BEL
}

/// Hexadecimal digits are no answer.
proof fn lemma_hex_field_answer_free(value: nat, digits: nat)
    ensures
        answer_free(line::hex_field(value, digits)),
    decreases digits,
{
    if digits > 0 {
        lemma_hex_field_answer_free(value / 16, (digits - 1) as nat);
    }
}

/// A line that can be answered at once is answered exactly once: what is written
/// ends in a carriage return or a bell, and holds no other.
pub proof fn law_line_is_answered_once(s: BridgeState, line: Seq<u8>)
    ensures
        ({
            let (t, verdict) = run_line(s, line);
            &&& verdict is Accepted ==> exists|text: Seq<u8>| #[trigger]
                answer_free(text) && t.out == s.out + text + seq![CR]
            &&& verdict is Refused ==> t.out == s.out + seq![BEL]
            &&& deferred(Some(verdict)) ==> t.out == s.out
        }),
{
    let (t, verdict) = run_line(s, line);
    let id = s.device.identification;
    if verdict is Accepted {
        let text = command(s, line).0.out.skip(s.out.len() as int);
        let byte = |i: int| (if i < id.len() { id[i] } else { 0u8 });
        lemma_hex_field_answer_free(byte(0) as nat, 2);
        lemma_hex_field_answer_free(byte(1) as nat, 2);
        lemma_hex_field_answer_free(s.status as nat, 2);
        assert(answer_free(text));
        assert(t.out =~= s.out + text + seq![CR]);
    }
}

/// An answer that had to wait for the adapter is given exactly once, whatever the
/// adapter does.
pub proof fn law_deferred_line_is_answered_once(s: BridgeState, mode: ChannelMode, ok: bool)
    ensures
        after_start(s, mode, ok).out == s.out + seq![if ok { CR } else { BEL }],
        after_stop(s, ok).out == s.out + seq![if ok { CR } else { BEL }],
        after_transmit(s, ok).out == s.out + seq![if ok { CR } else { BEL }],
{
}

/// The state once the adapter has done what a line needs, or failed to.
pub open spec fn settled(s: BridgeState, verdict: Option<Verdict>, ok: bool) -> BridgeState {
    match verdict {
        Some(Verdict::Start(mode)) => after_start(s, mode, ok),
        Some(Verdict::Stop) => after_stop(s, ok),
        Some(Verdict::Transmit(_)) => after_transmit(s, ok),
        _ => s,
    }
}

/// The state after `bytes`, where `ok` says of the byte at each place whether the
/// adapter did what the line that it ends needs.
pub open spec fn conversation(
    s: BridgeState,
    bytes: Seq<u8>,
    ok: spec_fn(int) -> bool,
) -> BridgeState
    decreases bytes.len(),
{
    if bytes.len() == 0 {
        s
    } else {
        let (t, verdict) = run_byte(conversation(s, bytes.drop_last(), ok), bytes.last());
        settled(t, verdict, ok(bytes.len() - 1))
    }
}

/// How many answers `out` holds.
pub open spec fn answers_in(out: Seq<u8>) -> nat {
    out.filter(|b: u8| b == CR || b == BEL).len()
}

/// How many lines `bytes` end.
pub open spec fn line_ends(bytes: Seq<u8>) -> nat {
    bytes.filter(|b: u8| b == CR || b == LF).len()
}

/// A client gets as many answers as it sent complete lines, whatever it sends and
/// whatever the adapter does.
pub proof fn law_as_many_answers_as_lines(
    s: BridgeState,
    bytes: Seq<u8>,
    ok: spec_fn(int) -> bool,
)
    ensures
        answers_in(conversation(s, bytes, ok).out) == answers_in(s.out) + line_ends(bytes),
    decreases bytes.len(),
{
    reveal(Seq::filter);
    if bytes.len() > 0 {
        let before = conversation(s, bytes.drop_last(), ok);
        law_as_many_answers_as_lines(s, bytes.drop_last(), ok);
        lemma_one_byte_answers(before, bytes.last(), ok(bytes.len() - 1));
    }
}

/// A byte that ends a line adds one answer, any other none.
proof fn lemma_one_byte_answers(s: BridgeState, byte: u8, ok: bool)
    ensures
        ({
            let (t, verdict) = run_byte(s, byte);
            answers_in(settled(t, verdict, ok).out) == answers_in(s.out) + (if byte == CR || byte
                == LF {
                1nat
            } else {
                0
            })
        }),
{
    if byte == CR || byte == LF {
        let cleared = BridgeState { line: Seq::empty(), ..s };
        let (t, verdict) = run_line(cleared, s.line);
        law_line_is_answered_once(cleared, s.line);
        if verdict is Accepted {
            let text = choose|text: Seq<u8>| #[trigger]
                answer_free(text) && t.out == s.out + text + seq![CR];
            lemma_answer_added(s.out, text, CR);
        } else {
            let answer = settled(t, Some(verdict), ok).out.last();
            lemma_answer_added(s.out, Seq::empty(), answer);
            assert(s.out + Seq::<u8>::empty() + seq![answer] =~= s.out + seq![answer]);
            assert(settled(t, Some(verdict), ok).out =~= s.out + seq![answer]);
        }
    }
}

/// Text without an answer, and an answer behind it, add one answer.
proof fn lemma_answer_added(out: Seq<u8>, text: Seq<u8>, answer: u8)
    requires
        answer_free(text),
        answer == CR || answer == BEL,
    ensures
        answers_in(out + text + seq![answer]) == answers_in(out) + 1,
    decreases text.len(),
{
    reveal(Seq::filter);
    let all = out + text + seq![answer];
    assert(all.drop_last() =~= out + text);
    if text.len() == 0 {
        assert(out + text =~= out);
    } else {
        assert forall|i: int| 0 <= i < text.len() - 1 implies #[trigger] text.drop_last()[i] != CR
            && text.drop_last()[i] != BEL by {
            assert(text.drop_last()[i] == text[i]);
        }
        lemma_answer_added(out, text.drop_last(), answer);
        assert((out + text).drop_last() =~= out + text.drop_last());
        assert((out + text.drop_last() + seq![answer]).drop_last() =~= out + text.drop_last());
    }
}

/// Only a byte that ends a line is answered or asks anything of the adapter.
pub proof fn law_other_bytes_are_not_answered(s: BridgeState, byte: u8)
    requires
        byte != CR,
        byte != LF,
    ensures
        run_byte(s, byte).1 is None,
        run_byte(s, byte).0 == (BridgeState { line: run_byte(s, byte).0.line, ..s }),
{
}

/// However much a client sends, the line stays within its limit.
pub proof fn law_line_stays_bounded(s: BridgeState, byte: u8)
    requires
        s.line.len() <= MAX_LINE_LEN,
    ensures
        run_byte(s, byte).0.line.len() <= MAX_LINE_LEN,
{
}

/// A bell throws away the line so far, so the next line stands on its own.
pub proof fn law_bell_resynchronizes(s: BridgeState, t: BridgeState)
    requires
        s == (BridgeState { line: s.line, ..t }),
    ensures
        run_byte(s, BEL).0 == run_byte(t, BEL).0,
{
}

/// The channel is started only for `O` and `L`, and only while it is closed.
pub proof fn law_start_needs_open_command(s: BridgeState, line: Seq<u8>)
    requires
        run_line(s, line).1 is Start,
    ensures
        !s.open,
        s.channel_exists(),
        line.len() > 0 && (line[0] == 0x4f || line[0] == 0x4c),
        run_line(s, line).0 == s,
{
}

/// No line opens the channel by itself: it is open only once the adapter has started
/// it.
pub proof fn law_open_only_after_start(s: BridgeState, line: Seq<u8>)
    ensures
        run_line(s, line).0.open ==> s.open,
{
}

/// Frames are transmitted only while the channel is open, and on the channel of the
/// bridge.
pub proof fn law_transmit_needs_open_channel(s: BridgeState, line: Seq<u8>)
    requires
        run_line(s, line).1 is Transmit,
    ensures
        s.open,
        s.channel_exists(),
        line::line_frame(line) == Some(run_line(s, line).1->Transmit_0),
{
}

/// A client that sends back the text of a frame has that frame transmitted.
pub proof fn law_frame_text_is_transmitted(s: BridgeState, frame: CanFrame, timestamps: bool)
    requires
        s.open,
        s.channel_exists(),
        frame.id <= line::max_id(frame.extended),
    ensures
        run_line(s, line::frame_text(frame, timestamps)) == (
            s,
            Verdict::Transmit(
                if frame.remote {
                    CanFrame::of_remote(frame.id, frame.extended, frame.payload_len() as u8)
                } else {
                    CanFrame::of_data(frame.id, frame.extended, frame.payload_bytes())
                },
            ),
        ),
{
    line::law_emitted_text_parses_back(frame, timestamps);
    assert(line::frame_text(frame, timestamps)[0] == line::frame_tag(
        frame.extended,
        frame.remote,
    ));
}

/// The bit rate cannot be changed while the channel is open.
pub proof fn law_open_channel_keeps_bitrate(s: BridgeState, line: Seq<u8>)
    requires
        s.open,
    ensures
        run_line(s, line).0.bitrate == s.bitrate,
        line.len() > 0 && line[0] == 0x53 ==> run_line(s, line).1 is Refused,
{
}

/// While the channel is closed, presetting a rate is what the matching `S` command
/// does: `S0` to `S8` name the supported rates in ascending order.
pub proof fn law_preset_is_set_command(s: BridgeState, i: int)
    requires
        0 <= i < 9,
        !s.open,
    ensures
        run_line(s, seq![0x53u8, (0x30 + i) as u8]) == (
            BridgeState { bitrate: Bitrate::ALL@[i], ..s.writing(seq![CR]) },
            Verdict::Accepted,
        ),
{
    let line = seq![0x53u8, (0x30 + i) as u8];
    assert(line.skip(1)[0] == (0x30 + i) as u8);
}

/// Asking for the status clears it.
pub proof fn law_status_is_cleared_when_read(s: BridgeState)
    ensures
        run_line(s, seq![0x46u8]).0.status == 0,
        run_line(s, seq![0x46u8]).0.out == s.out + status_text(s.status) + seq![CR],
{
}

/// Until it is asked for, a status bit stays: nothing else that happens clears one.
pub proof fn law_status_bits_stay(
    s: BridgeState,
    line: Seq<u8>,
    mode: ChannelMode,
    ok: bool,
    chunk: RxChunk,
)
    ensures
        line.len() == 0 || line[0] != 0x46 ==> run_line(s, line).0.status & s.status == s.status,
        after_start(s, mode, ok).status == s.status,
        after_stop(s, ok).status == s.status,
        after_transmit(s, ok).status & s.status == s.status,
        after_chunk(s, chunk).status & s.status == s.status,
{
    let a = s.status;
    assert(a & a == a) by (bit_vector);
    assert((a | BUS_ERROR) & a == a) by (bit_vector);
    lemma_with_status_keeps(a, chunk.status@);
}

proof fn lemma_with_status_keeps(status: u8, records: Seq<RxStatus>)
    ensures
        with_status(status, records) & status == status,
    decreases records.len(),
{
    if records.len() == 0 {
        assert(status & status == status) by (bit_vector);
    } else {
        lemma_with_status_keeps(status, records.drop_last());
        let rest = with_status(status, records.drop_last());
        let bits = status_bits(records.last().kind);
        assert((rest | bits) & status == status) by (bit_vector)
            requires
                rest & status == status,
        ;
    }
}

/// A status record shows in the status: its bits are set.
pub proof fn law_status_record_is_reported(s: BridgeState, chunk: RxChunk, i: int)
    requires
        0 <= i < chunk.status@.len(),
    ensures
        ({
            let bits = status_bits(chunk.status@[i].kind);
            after_chunk(s, chunk).status & bits == bits
        }),
{
    lemma_with_status_sets(s.status, chunk.status@, i);
}

proof fn lemma_with_status_sets(status: u8, records: Seq<RxStatus>, i: int)
    requires
        0 <= i < records.len(),
    ensures
        with_status(status, records) & status_bits(records[i].kind) == status_bits(
            records[i].kind,
        ),
    decreases records.len(),
{
    let rest = with_status(status, records.drop_last());
    let last = status_bits(records.last().kind);
    let bits = status_bits(records[i].kind);
    if i == records.len() - 1 {
        assert((rest | last) & last == last) by (bit_vector);
    } else {
        lemma_with_status_sets(status, records.drop_last(), i);
        assert((rest | last) & bits == bits) by (bit_vector)
            requires
                rest & bits == bits,
        ;
    }
}

/// What one read of commands leaves undone can be done in the next: bytes may be
/// split between reads anywhere that no answer is waited for.
pub proof fn law_commands_split_anywhere(s: BridgeState, a: Seq<u8>, b: Seq<u8>)
    requires
        !deferred(run_bytes(s, a).2),
    ensures
        run_bytes(s, a).1 == a.len(),
        run_bytes(s, a + b).0 == run_bytes(run_bytes(s, a).0, b).0,
        run_bytes(s, a + b).1 == a.len() + run_bytes(run_bytes(s, a).0, b).1,
        run_bytes(s, a + b).2 == run_bytes(run_bytes(s, a).0, b).2,
    decreases a.len(),
{
    if a.len() == 0 {
        assert(a + b =~= b);
    } else {
        let t = run_byte(s, a.first()).0;
        assert((a + b).drop_first() =~= a.drop_first() + b);
        assert((a + b).first() == a.first());
        law_commands_split_anywhere(t, a.drop_first(), b);
    }
}

/// `S` and a digit: `0` to `8` name 10, 20, 50, 100, 125, 250, 500, 800 and 1000 kbit/s.
/// The rate is set and nothing else changes. Everything else behind `S` is refused, and
/// so is every `S` while the channel is open.
pub proof fn law_set_command(s: BridgeState, line: Seq<u8>)
    requires
        line.len() > 0,
        line[0] == 0x53,
    ensures
        ({
            let (t, verdict) = run_line(s, line);
            if !s.open && line.len() > 1 && 0x30 <= line[1] <= 0x38 {
                &&& verdict is Accepted
                &&& t.bitrate.rate() == seq![10u32, 20, 50, 100, 125, 250, 500, 800, 1000][line[1]
                    - 0x30]
                &&& t.out == s.out + seq![0x0du8]
                &&& t == (BridgeState { bitrate: t.bitrate, out: t.out, ..s })
            } else {
                &&& verdict is Refused
                &&& t == (BridgeState { out: s.out + seq![0x07u8], ..s })
            }
        }),
{
    if line.len() > 1 {
        assert(line.skip(1)[0] == line[1]);
        let all = Bitrate::ALL@;
        assert(all[0].rate() == 10 && all[1].rate() == 20 && all[2].rate() == 50);
        assert(all[3].rate() == 100 && all[4].rate() == 125 && all[5].rate() == 250);
        assert(all[6].rate() == 500 && all[7].rate() == 800 && all[8].rate() == 1000);
    }
}

/// `O` starts the channel in normal mode and `L` in passive mode, if it is closed and
/// the adapter has it; else they are refused. Nothing is answered until the adapter has
/// started the channel, and nothing changes until then.
pub proof fn law_open_commands(s: BridgeState, line: Seq<u8>)
    requires
        line.len() > 0,
        line[0] == 0x4f || line[0] == 0x4c,
    ensures
        ({
            let (t, verdict) = run_line(s, line);
            let channels: int = if s.device.pid == 0x1261 {
                2
            } else {
                1
            };
            if !s.open && s.channel < channels {
                &&& verdict == Verdict::Start(
                    if line[0] == 0x4f {
                        ChannelMode::Normal
                    } else {
                        ChannelMode::Passive
                    },
                )
                &&& t == s
            } else {
                &&& verdict is Refused
                &&& t == (BridgeState { out: s.out + seq![0x07u8], ..s })
            }
        }),
{
}

/// `C` closes an open channel at once and has the adapter stop it; nothing else changes.
/// A closed channel refuses it. A channel that the adapter does not have is closed, and
/// the command is refused.
pub proof fn law_close_command(s: BridgeState, line: Seq<u8>)
    requires
        line.len() > 0,
        line[0] == 0x43,
    ensures
        ({
            let (t, verdict) = run_line(s, line);
            &&& !s.open ==> verdict is Refused && t == (BridgeState {
                out: s.out + seq![0x07u8],
                ..s
            })
            &&& s.open && s.channel_exists() ==> verdict is Stop && t == (BridgeState {
                open: false,
                ..s
            })
            &&& s.open && !s.channel_exists() ==> verdict is Refused && t == (BridgeState {
                open: false,
                out: s.out + seq![0x07u8],
                ..s
            })
        }),
{
}

/// `t`, `T`, `r` and `R` have the frame of the line transmitted, if the channel is open
/// and the line is a frame; else they are refused. Nothing changes until the adapter
/// has answered. A channel that the adapter does not have sets the bus error bit.
pub proof fn law_transmit_commands(s: BridgeState, line: Seq<u8>)
    requires
        line.len() > 0,
        line[0] == 0x74 || line[0] == 0x54 || line[0] == 0x72 || line[0] == 0x52,
    ensures
        ({
            let (t, verdict) = run_line(s, line);
            if s.open && line::line_frame(line) is Some && s.channel_exists() {
                verdict == Verdict::Transmit(line::line_frame(line)->0) && t == s
            } else if s.open && line::line_frame(line) is Some {
                verdict is Refused && t == (BridgeState {
                    status: s.status | 0x80,
                    out: s.out + seq![0x07u8],
                    ..s
                })
            } else {
                verdict is Refused && t == (BridgeState { out: s.out + seq![0x07u8], ..s })
            }
        }),
{
}

/// The commands that only ask: `V` and `v` are answered `V1010` and `v1010`, `N` with
/// the first two bytes of the identification in four digits, zeros where it has none.
/// An empty line and the filter commands `M` and `m` are just acknowledged. Nothing
/// changes but what is written.
pub proof fn law_questions(s: BridgeState, line: Seq<u8>)
    requires
        line.len() == 0 || line[0] == 0x56 || line[0] == 0x76 || line[0] == 0x4e || line[0] == 0x4d
            || line[0] == 0x6d,
    ensures
        ({
            let (t, verdict) = run_line(s, line);
            let text = t.out.skip(s.out.len() as int);
            let id = s.device.identification;
            &&& verdict is Accepted
            &&& t == (BridgeState { out: t.out, ..s })
            &&& t.out == s.out + text
            &&& line.len() == 0 || line[0] == 0x4d || line[0] == 0x6d ==> text == seq![0x0du8]
            &&& line.len() > 0 && line[0] == 0x56 ==> text == seq![
                0x56u8,
                0x31,
                0x30,
                0x31,
                0x30,
                0x0d,
            ]
            &&& line.len() > 0 && line[0] == 0x76 ==> text == seq![
                0x76u8,
                0x31,
                0x30,
                0x31,
                0x30,
                0x0d,
            ]
            &&& line.len() > 0 && line[0] == 0x4e ==> {
                &&& text.len() == 6 && text[0] == 0x4e && text[5] == 0x0d
                &&& line::hex_number(text.subrange(1, 3)) == Some(
                    if id.len() > 0 {
                        id[0] as nat
                    } else {
                        0
                    },
                )
                &&& line::hex_number(text.subrange(3, 5)) == Some(
                    if id.len() > 1 {
                        id[1] as nat
                    } else {
                        0
                    },
                )
            }
        }),
{
    let (t, verdict) = run_line(s, line);
    let text = t.out.skip(s.out.len() as int);
    let id = s.device.identification;
    assert(t.out =~= s.out + text);
    if line.len() == 0 || line[0] == 0x4d || line[0] == 0x6d {
        assert(text =~= seq![0x0du8]);
    } else if line[0] == 0x56 {
        assert(text =~= version_text().push(0x0d));
        assert(text =~= seq![0x56u8, 0x31, 0x30, 0x31, 0x30, 0x0d]);
    } else if line[0] == 0x76 {
        assert(text =~= firmware_text().push(0x0d));
        assert(text =~= seq![0x76u8, 0x31, 0x30, 0x31, 0x30, 0x0d]);
    } else {
        let first: nat = if id.len() > 0 {
            id[0] as nat
        } else {
            0
        };
        let second: nat = if id.len() > 1 {
            id[1] as nat
        } else {
            0
        };
        lemma_two_digits(first as u8);
        lemma_two_digits(second as u8);
        assert(text =~= serial_text(id).push(0x0d));
        assert(text.subrange(1, 3) =~= line::hex_field(first, 2));
        assert(text.subrange(3, 5) =~= line::hex_field(second, 2));
    }
}

/// A byte in two digits reads back as itself.
proof fn lemma_two_digits(b: u8)
    ensures
        line::hex_field(b as nat, 2).len() == 2,
        line::hex_number(line::hex_field(b as nat, 2)) == Some(b as nat),
{
    line::law_hex_field_reads_back(b as nat, 2);
    reveal_with_fuel(crate::text::sixteen_to, 3);
    vstd::arithmetic::div_mod::lemma_small_mod(b as nat, 256);
}

/// `F` is answered with an `F` and the status in two digits, and clears the status;
/// nothing else changes.
pub proof fn law_status_command(s: BridgeState, line: Seq<u8>)
    requires
        line.len() > 0,
        line[0] == 0x46,
    ensures
        ({
            let (t, verdict) = run_line(s, line);
            let text = t.out.skip(s.out.len() as int);
            &&& verdict is Accepted
            &&& t.status == 0
            &&& t == (BridgeState { out: t.out, status: 0, ..s })
            &&& t.out == s.out + text
            &&& text.len() == 4 && text[0] == 0x46 && text[3] == 0x0d
            &&& line::hex_number(text.subrange(1, 3)) == Some(s.status as nat)
        }),
{
    let (t, verdict) = run_line(s, line);
    let text = t.out.skip(s.out.len() as int);
    lemma_two_digits(s.status);
    assert(t.out =~= s.out + text);
    assert(text =~= status_text(s.status).push(0x0d));
    assert(text.subrange(1, 3) =~= line::hex_field(s.status as nat, 2));
}

/// `Z1` turns timestamps on and `Z0` turns them off; nothing else changes. Anything else
/// behind `Z` is refused.
pub proof fn law_timestamp_commands(s: BridgeState, line: Seq<u8>)
    requires
        line.len() > 0,
        line[0] == 0x5a,
    ensures
        ({
            let (t, verdict) = run_line(s, line);
            if line.len() > 1 && (line[1] == 0x30 || line[1] == 0x31) {
                verdict is Accepted && t == (BridgeState {
                    timestamps: line[1] == 0x31,
                    out: s.out + seq![0x0du8],
                    ..s
                })
            } else {
                verdict is Refused && t == (BridgeState { out: s.out + seq![0x07u8], ..s })
            }
        }),
{
    if line.len() > 1 {
        assert(line.skip(1)[0] == line[1]);
    }
}

/// Every other command, `s` among them, is refused, and nothing changes.
pub proof fn law_other_commands_are_refused(s: BridgeState, line: Seq<u8>)
    requires
        line.len() > 0,
        !seq![
            0x53u8,
            0x4f,
            0x4c,
            0x43,
            0x74,
            0x54,
            0x72,
            0x52,
            0x56,
            0x76,
            0x4e,
            0x46,
            0x5a,
            0x4d,
            0x6d,
        ].contains(line[0]),
    ensures
        run_line(s, line).1 is Refused,
        run_line(s, line).0 == (BridgeState { out: s.out + seq![0x07u8], ..s }),
{
    let known = seq![
        0x53u8,
        0x4f,
        0x4c,
        0x43,
        0x74,
        0x54,
        0x72,
        0x52,
        0x56,
        0x76,
        0x4e,
        0x46,
        0x5a,
        0x4d,
        0x6d,
    ];
    assert(known[0] != line[0] && known[1] != line[0] && known[2] != line[0] && known[3] != line[0]
        && known[4] != line[0] && known[5] != line[0] && known[6] != line[0] && known[7] != line[0]
        && known[8] != line[0] && known[9] != line[0] && known[10] != line[0] && known[11]
        != line[0] && known[12] != line[0] && known[13] != line[0] && known[14] != line[0]);
}

/// What a byte does: a carriage return or line feed runs the line so far and starts a
/// new one; a bell throws the line away; any other byte is added to it, up to 64.
pub proof fn law_bytes_make_lines(s: BridgeState, byte: u8)
    ensures
        ({
            let (t, verdict) = run_byte(s, byte);
            let fresh = BridgeState { line: Seq::empty(), ..s };
            &&& byte == 0x0d || byte == 0x0a ==> t == run_line(fresh, s.line).0 && verdict == Some(
                run_line(fresh, s.line).1,
            ) && t.line.len() == 0
            &&& byte == 0x07 ==> t == fresh && verdict is None
            &&& byte != 0x0d && byte != 0x0a && byte != 0x07 ==> {
                &&& verdict is None
                &&& t == (BridgeState { line: t.line, ..s })
                &&& s.line.len() < 64 ==> t.line == s.line.push(byte)
                &&& s.line.len() >= 64 ==> t.line == s.line
            }
        }),
{
}

/// Bytes are taken one after another: one byte alone does what that byte does.
pub proof fn law_one_byte_run(s: BridgeState, byte: u8)
    ensures
        run_bytes(s, Seq::<u8>::empty()) == (s, 0nat, None::<Verdict>),
        run_bytes(s, seq![byte]).0 == run_byte(s, byte).0,
        run_bytes(s, seq![byte]).1 == 1,
        deferred(run_byte(s, byte).1) ==> run_bytes(s, seq![byte]).2 == run_byte(s, byte).1,
{
    reveal_with_fuel(run_bytes, 2);
    assert(seq![byte].drop_first() =~= Seq::empty());
}

/// Only starting, stopping and transmitting wait for the adapter.
pub proof fn law_what_is_deferred(verdict: Verdict)
    ensures
        deferred(Some(verdict)) <==> verdict is Start || verdict is Stop || verdict is Transmit,
        !deferred(None::<Verdict>),
{
}

/// What the end of the adapter's work does. A started channel is open, in its mode; a
/// failed transmission sets the bus error bit; nothing else changes but for the answer.
pub proof fn law_adapter_answers(s: BridgeState, mode: ChannelMode, ok: bool)
    ensures
        ({
            let answer = seq![
                if ok {
                    0x0du8
                } else {
                    0x07
                },
            ];
            &&& after_start(s, mode, true) == (BridgeState {
                open: true,
                mode,
                out: s.out + seq![0x0du8],
                ..s
            })
            &&& after_start(s, mode, false) == (BridgeState { out: s.out + seq![0x07u8], ..s })
            &&& after_stop(s, ok) == (BridgeState { out: s.out + answer, ..s })
            &&& after_transmit(s, ok).out == s.out + answer
            &&& after_transmit(s, ok) == (BridgeState {
                out: s.out + answer,
                status: after_transmit(s, ok).status,
                ..s
            })
            &&& after_transmit(s, true).status == s.status
            &&& after_transmit(s, false).status == s.status | 0x80
        }),
{
}

/// What the adapter is asked to do: to start the channel of the bridge at its rate in
/// the mode asked for, beginning with a stop; to stop that channel; to send one frame
/// on it.
pub proof fn law_bridge_actions(
    s: BridgeState,
    verdict: Option<Verdict>,
    action: Option<BridgeAction>,
)
    requires
        s.channel_exists(),
        action_for(s, verdict, action),
    ensures
        action is Some <==> deferred(verdict),
        verdict matches Some(Verdict::Start(mode)) ==> {
            &&& action matches Some(BridgeAction::Start { sequence, mode: m })
            &&& m == mode && sequence@.mode == mode
            &&& sequence@.channel == s.channel && sequence@.bitrate == s.bitrate
            &&& sequence@.step is Stop
            &&& sequence@.timeout_ms == s.device.ctrl_timeout_ms
        },
        verdict matches Some(Verdict::Stop) ==> {
            &&& action matches Some(BridgeAction::Stop(x))
            &&& x.write.endpoint == 0x04
            &&& x.write.data@.len() == 64
            &&& x.write.data@[1] == 0x24
            &&& x.write.data@[4] == s.channel + 1
            &&& x.write.data@[5] == 0
            &&& x.read.timeout_ms == s.device.ctrl_timeout_ms
        },
        verdict matches Some(Verdict::Transmit(frame)) ==> {
            &&& action matches Some(BridgeAction::Transmit(x))
            &&& x.write.endpoint == 0x02
            &&& x.write.timeout_ms == Some(s.device.ctrl_timeout_ms)
            &&& x.read.timeout_ms == s.device.ctrl_timeout_ms
            &&& x.write.data@[1] * 256 + x.write.data@[2] == 1
            &&& x.write.data@[4] == s.channel
            &&& x.write.data@.subrange(8, 32) == (CanFrame {
                channel: s.channel,
                timestamp_us: 0,
                ..frame
            }).record()
        },
{
    if verdict matches Some(Verdict::Stop) {
        let x = action->0->Stop_0;
        let payload = ctrl::stop_bytes(s.channel);
        ctrl::law_channel_payloads(s.channel, 0, 0);
        device::law_control_exchange_bytes(
            x,
            CtrlCmd::StartStop.command_byte(),
            payload,
            s.device.ctrl_timeout_ms,
        );
        assert(x.write.data@.subrange(4, 6)[0] == x.write.data@[4]);
        assert(x.write.data@.subrange(4, 6)[1] == x.write.data@[5]);
    } else if verdict is Some && verdict->0 is Transmit {
        let frame = verdict->0->Transmit_0;
        let x = action->0->Transmit_0;
        device::law_transmit_exchange_bytes(
            x,
            seq![frame],
            s.channel,
            s.device.ctrl_timeout_ms,
        );
        let first = 0int;
        assert(x.write.data@.subrange(8 + 24 * first, 32 + 24 * first) == (CanFrame {
            channel: s.channel,
            timestamp_us: 0,
            ..frame
        }).record());
    }
}

/// Whether a record of this kind is among `records`.
pub open spec fn reported(records: Seq<RxStatus>, kind: RxStatusKind) -> bool {
    exists|i: int| 0 <= i < records.len() && (#[trigger] records[i]).kind == kind
}

/// Which status bits a batch sets: bit 3 (data overrun) exactly for an overflow, bit 2
/// (error warning) exactly for a controller error, bits 5 and 7 (error passive and bus
/// error) exactly for a bus error. All other bits, and the bits of kinds that did not
/// occur, stay as they were.
pub proof fn law_status_bits_of_batch(s: BridgeState, chunk: RxChunk)
    ensures
        ({
            let old_status = s.status;
            let new_status = after_chunk(s, chunk).status;
            let records = chunk.status@;
            &&& (new_status & 0x08 != 0) == (old_status & 0x08 != 0 || reported(
                records,
                RxStatusKind::Overflow,
            ))
            &&& (new_status & 0x04 != 0) == (old_status & 0x04 != 0 || reported(
                records,
                RxStatusKind::CanError,
            ))
            &&& (new_status & 0x20 != 0) == (old_status & 0x20 != 0 || reported(
                records,
                RxStatusKind::BusErrorOrPassive,
            ))
            &&& (new_status & 0x80 != 0) == (old_status & 0x80 != 0 || reported(
                records,
                RxStatusKind::BusErrorOrPassive,
            ))
            &&& new_status & 0x53 == old_status & 0x53
        }),
{
    lemma_status_bits(s.status, chunk.status@);
}

proof fn lemma_status_bits(status: u8, records: Seq<RxStatus>)
    ensures
        ({
            let all = with_status(status, records);
            &&& (all & 0x08 != 0) == (status & 0x08 != 0 || reported(records, RxStatusKind::Overflow))
            &&& (all & 0x04 != 0) == (status & 0x04 != 0 || reported(records, RxStatusKind::CanError))
            &&& (all & 0x20 != 0) == (status & 0x20 != 0 || reported(
                records,
                RxStatusKind::BusErrorOrPassive,
            ))
            &&& (all & 0x80 != 0) == (status & 0x80 != 0 || reported(
                records,
                RxStatusKind::BusErrorOrPassive,
            ))
            &&& all & 0x53 == status & 0x53
        }),
    decreases records.len(),
{
    if records.len() > 0 {
        let init = records.drop_last();
        let kind = records.last().kind;
        let rest = with_status(status, init);
        lemma_status_bits(status, init);
        lemma_reported_grows(records, RxStatusKind::Overflow);
        lemma_reported_grows(records, RxStatusKind::CanError);
        lemma_reported_grows(records, RxStatusKind::BusErrorOrPassive);
        lemma_added_bits(rest);
        assert((0x20u8 | 0x80u8) == 0xa0u8) by (bit_vector);
    }
}

proof fn lemma_reported_grows(records: Seq<RxStatus>, kind: RxStatusKind)
    requires
        records.len() > 0,
    ensures
        reported(records, kind) == (reported(records.drop_last(), kind) || records.last().kind
            == kind),
{
    let init = records.drop_last();
    if reported(init, kind) {
        let i = choose|i: int| 0 <= i < init.len() && (#[trigger] init[i]).kind == kind;
        assert(records[i].kind == kind);
    }
    if records.last().kind == kind {
        assert(records[records.len() - 1].kind == kind);
    }
    if reported(records, kind) && records.last().kind != kind {
        let i = choose|i: int| 0 <= i < records.len() && (#[trigger] records[i]).kind == kind;
        assert(init[i].kind == kind);
    }
}

proof fn lemma_added_bits(a: u8)
    by (bit_vector)
    ensures
        (a | 0x08) & 0x08 != 0 && (a | 0x08) & 0x04 == a & 0x04 && (a | 0x08) & 0x20 == a & 0x20,
        (a | 0x08) & 0x80 == a & 0x80 && (a | 0x08) & 0x53 == a & 0x53,
        (a | 0x04) & 0x04 != 0 && (a | 0x04) & 0x08 == a & 0x08 && (a | 0x04) & 0x20 == a & 0x20,
        (a | 0x04) & 0x80 == a & 0x80 && (a | 0x04) & 0x53 == a & 0x53,
        (a | 0xa0) & 0x20 != 0 && (a | 0xa0) & 0x80 != 0 && (a | 0xa0) & 0x08 == a & 0x08,
        (a | 0xa0) & 0x04 == a & 0x04 && (a | 0xa0) & 0x53 == a & 0x53,
        a | 0 == a,
{
}

/// What a batch writes: the line of each frame on the channel of the bridge, in order,
/// and nothing else. But for the status nothing else changes.
pub proof fn law_batch_output(s: BridgeState, chunk: RxChunk)
    ensures
        after_chunk(s, chunk).out == s.out + line::frame_lines(
            receive::on_channel(chunk.frames@, s.channel),
            s.timestamps,
        ),
        after_chunk(s, chunk) == (BridgeState {
            out: after_chunk(s, chunk).out,
            status: after_chunk(s, chunk).status,
            ..s
        }),
        receive::on_channel(chunk.frames@, s.channel).len() == 0 ==> after_chunk(s, chunk).out
            == s.out,
{
    assert(s.out + Seq::<u8>::empty() =~= s.out);
}

/// The bridge looks for commands and for frames fifty times a second. A line has room
/// for the longest command, an extended frame of eight bytes, and more.
pub proof fn law_polling()
    ensures
        50 * POLL_MS == 1000,
        MAX_LINE_LEN > 1 + 8 + 1 + 2 * 8,
        MAX_LINE_LEN == 64,
{
}

} // verus!
