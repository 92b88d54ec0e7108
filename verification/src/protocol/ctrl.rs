//! Control commands: 64-byte packets, their responses, command payloads.

use vstd::prelude::*;

use super::bytes;
use super::bytes::{le32_byte, xor_prefix};
use crate::error::Error;

verus! {

/// Control packets are always exactly one 64-byte USB packet.
pub const CTRL_PACKET_LEN: usize = 64;

/// First byte of every control packet, in both directions.
pub const CTRL_SOF: u8 = 0x7e;

/// Control command codes.
///
/// These are the commands this driver needs. The device accepts others that are
/// not exercised here.
#[derive(Debug, Clone, Copy, PartialEq, Eq, Structural)]
pub enum CtrlCmd {
    /// Status / presence probe. Payload: 1 byte.
    Probe,
    /// Prepare a channel. Payload: 7 bytes, see [`init_channel_payload`].
    InitChannel,
    /// Set bit timing and mode. Payload: 6 bytes, see [`set_bit_timing_payload`].
    SetBitTiming,
    /// Start or stop a channel. Payload: 2 bytes, see [`start_payload`] / [`stop_payload`].
    StartStop,
    /// Vendor "set reference" escape hatch. Payload: 1 or more bytes.
    SetReference,
    /// Transmit-error recovery.
    TxErrRecover,
    /// Read board status. Payload: none.
    GetStatus,
}

impl CtrlCmd {
    /// The raw command byte.
    pub open spec fn command_byte(self) -> u8 {
        match self {
            CtrlCmd::Probe => 0x01,
            CtrlCmd::InitChannel => 0x02,
            CtrlCmd::SetBitTiming => 0x23,
            CtrlCmd::StartStop => 0x24,
            CtrlCmd::SetReference => 0x25,
            CtrlCmd::TxErrRecover => 0x27,
            CtrlCmd::GetStatus => 0x2c,
        }
    }

    /// The raw command byte.
    pub fn code(self) -> (code: u8)
        ensures
            code == self.command_byte(),
    {
        match self {
            CtrlCmd::Probe => 0x01,
            CtrlCmd::InitChannel => 0x02,
            CtrlCmd::SetBitTiming => 0x23,
            CtrlCmd::StartStop => 0x24,
            CtrlCmd::SetReference => 0x25,
            CtrlCmd::TxErrRecover => 0x27,
            CtrlCmd::GetStatus => 0x2c,
        }
    }
}

/// A decoded control response.
#[derive(Debug, Clone, Copy)]
pub struct CtrlResp {
    /// Echo of the command byte that was sent.
    pub cmd_echo: u8,
    /// Number of valid payload bytes.
    pub length: u8,
    /// Response payload, zero-padded.
    pub payload: [u8; 32],
}

// ───────────────────────────── Model ─────────────────────────────

/// Header and payload of a control packet: what its checksum covers.
pub open spec fn ctrl_head(cmd: u8, payload: Seq<u8>) -> Seq<u8> {
    seq![CTRL_SOF, cmd, payload.len() as u8, 0x00u8] + payload
}

/// A control packet: head, checksum, zero padding to 64 bytes.
pub open spec fn ctrl_packet(cmd: u8, payload: Seq<u8>) -> Seq<u8> {
    ctrl_head(cmd, payload).push(bytes::xor_of(ctrl_head(cmd, payload))) + bytes::zeros(
        (59 - payload.len()) as nat,
    )
}

/// What is wrong with a response to command `cmd`, if it breaks the protocol.
pub open spec fn reply_fault(buf: Seq<u8>, cmd: u8) -> Option<Seq<char>> {
    if buf.len() < 4 {
        Some("control response shorter than 4 bytes"@)
    } else if buf[0] != CTRL_SOF {
        Some("control response missing 0x7e start-of-frame"@)
    } else if buf[1] != cmd {
        Some("control response echoed a different command"@)
    } else {
        None
    }
}

/// Whether a response that follows the protocol marks a refused command.
pub open spec fn reply_refused(buf: Seq<u8>) -> bool {
    buf[2] >= 0x80
}

/// How many payload bytes a response carries into [`CtrlResp::payload`].
pub open spec fn reply_copied(buf: Seq<u8>) -> int {
    let fits = if buf[2] <= 32 {
        buf[2] as int
    } else {
        32
    };
    if fits <= buf.len() - 4 {
        fits
    } else {
        buf.len() - 4
    }
}

impl CtrlResp {
    /// Whether this is the decoded form of the accepted response `buf`.
    pub open spec fn decodes(self, buf: Seq<u8>) -> bool {
        &&& self.cmd_echo == buf[1]
        &&& self.length == buf[2]
        &&& self.payload@ == buf.subrange(4, 4 + reply_copied(buf)) + bytes::zeros(
            (32 - reply_copied(buf)) as nat,
        )
    }

    /// The valid part of the payload.
    pub open spec fn valid_bytes(self) -> Seq<u8> {
        self.payload@.take(
            if self.length <= 32 {
                self.length as int
            } else {
                32
            },
        )
    }

    /// The valid part of [`Self::payload`].
    pub fn bytes(&self) -> (valid: &[u8])
        ensures
            valid@ == self.valid_bytes(),
    {
        let len: usize = if self.length <= 32 { self.length as usize } else { 32 };
        &self.payload[0..len]
    }
}

/// What [`parse_ctrl_resp`] makes of the response `buf` to command `cmd`.
pub open spec fn reply_outcome(buf: Seq<u8>, cmd: u8, r: Result<CtrlResp, Error>) -> bool {
    match reply_fault(buf, cmd) {
        Some(text) => crate::error::protocol_error(r, text),
        None => if reply_refused(buf) {
            r matches Err(Error::Rejected { cmd: c, status }) && c == cmd && status == buf[2]
        } else {
            r matches Ok(resp) && resp.decodes(buf)
        },
    }
}

// ───────────────────────────── Packing and parsing ─────────────────────────────

/// Build a 64-byte control packet.
///
/// ```text
/// byte 0         0x7e  start-of-frame
/// byte 1         command code
/// byte 2         payload length
/// byte 3         0x00  reserved
/// byte 4..4+L    payload
/// byte 4+L       XOR of bytes 0..(4+L)
/// remainder      zero padding to 64 bytes
/// ```
pub fn pack_ctrl(cmd: u8, payload: &[u8]) -> (pkt: [u8; CTRL_PACKET_LEN])
    requires
        payload@.len() <= CTRL_PACKET_LEN - 5,
    ensures
        pkt@ == ctrl_packet(cmd, payload@),
{
    let len: usize = payload.len();
    let mut pkt = [0u8; CTRL_PACKET_LEN];
    pkt[0] = CTRL_SOF;
    pkt[1] = cmd;
    pkt[2] = len as u8;
    pkt[3] = 0x00;
    let ghost fixed = seq![CTRL_SOF, cmd, len as u8, 0x00u8];
    let mut i: usize = 0;
    assert(pkt@ =~= fixed + payload@.take(0) + bytes::zeros(60));
    while i < len
        invariant
            i <= len <= 59,
            len == payload@.len(),
            fixed.len() == 4,
            pkt@ =~= fixed + payload@.take(i as int) + bytes::zeros((60 - i) as nat),
        decreases len - i,
    {
        pkt[4 + i] = payload[i];
        i += 1;
    }
    let ghost head = ctrl_head(cmd, payload@);
    assert(pkt@.take(4 + len) =~= head);
    let xor = xor_prefix(&pkt, 4 + len);
    pkt[4 + len] = xor;
    assert(pkt@ =~= ctrl_packet(cmd, payload@));
    pkt
}

/// Parse a control response and verify it belongs to `expected_cmd`.
///
/// The device signals failure by setting bit 7 of byte 2; the low 7 bits are the
/// payload length.
pub fn parse_ctrl_resp(buf: &[u8], expected_cmd: u8) -> (r: Result<CtrlResp, Error>)
    ensures
        reply_outcome(buf@, expected_cmd, r),
{
    if buf.len() < 4 {
        return Err(Error::Protocol("control response shorter than 4 bytes"));
    }
    if buf[0] != CTRL_SOF {
        return Err(Error::Protocol("control response missing 0x7e start-of-frame"));
    }
    if buf[1] != expected_cmd {
        return Err(Error::Protocol("control response echoed a different command"));
    }
    if buf[2] >= 0x80 {
        return Err(Error::Rejected { cmd: expected_cmd, status: buf[2] });
    }
    let length: u8 = buf[2];
    let fits: usize = if length <= 32 { length as usize } else { 32 };
    let copy_len: usize = if fits <= buf.len() - 4 { fits } else { buf.len() - 4 };
    let mut payload = [0u8; 32];
    let mut i: usize = 0;
    while i < copy_len
        invariant
            i <= copy_len <= 32,
            copy_len + 4 <= buf.len(),
            payload@ =~= buf@.subrange(4, 4 + i) + bytes::zeros((32 - i) as nat),
        decreases copy_len - i,
    {
        payload[i] = buf[4 + i];
        i += 1;
    }
    Ok(CtrlResp { cmd_echo: buf[1], length, payload })
}

// ───────────────────────────── Command payload builders ─────────────────────────────

/// Bytes of the [`CtrlCmd::InitChannel`] payload.
pub open spec fn init_channel_bytes(channel: u8) -> Seq<u8> {
    seq![0x01u8, (channel + 1) as u8, 0x01u8, 0x00u8, 0x18u8, 0x00u8, 0x00u8]
}

/// Bytes of the [`CtrlCmd::SetBitTiming`] payload.
pub open spec fn set_bit_timing_bytes(channel: u8, mode_flag: u8, timing: u32) -> Seq<u8> {
    seq![(channel + 1) as u8, mode_flag] + bytes::le32(timing)
}

/// Bytes of the [`CtrlCmd::StartStop`] payload that starts a channel.
pub open spec fn start_bytes(channel: u8) -> Seq<u8> {
    seq![(channel + 1) as u8, 0x80u8]
}

/// Bytes of the [`CtrlCmd::StartStop`] payload that stops a channel.
pub open spec fn stop_bytes(channel: u8) -> Seq<u8> {
    seq![(channel + 1) as u8, 0x00u8]
}

/// Payload for [`CtrlCmd::InitChannel`].
pub fn init_channel_payload(channel: u8) -> (payload: [u8; 7])
    requires
        channel < 255,
    ensures
        payload@ == init_channel_bytes(channel),
{
    let payload = [0x01u8, channel + 1, 0x01, 0x00, 0x18, 0x00, 0x00];
    assert(payload@ =~= init_channel_bytes(channel));
    payload
}

/// Payload for [`CtrlCmd::SetBitTiming`].
///
/// `mode_flag` comes from [`ChannelMode::flag`](super::ChannelMode::flag); `timing`
/// from [`Bitrate::packed`](super::Bitrate::packed).
pub fn set_bit_timing_payload(channel: u8, mode_flag: u8, timing: u32) -> (payload: [u8; 6])
    requires
        channel < 255,
    ensures
        payload@ == set_bit_timing_bytes(channel, mode_flag, timing),
{
    let payload = [
        channel + 1,
        mode_flag,
        le32_byte(timing, 0),
        le32_byte(timing, 1),
        le32_byte(timing, 2),
        le32_byte(timing, 3),
    ];
    assert(payload@ =~= set_bit_timing_bytes(channel, mode_flag, timing));
    payload
}

/// Payload for [`CtrlCmd::StartStop`] that starts a channel.
pub fn start_payload(channel: u8) -> (payload: [u8; 2])
    requires
        channel < 255,
    ensures
        payload@ == start_bytes(channel),
{
    let payload = [channel + 1, 0x80];
    assert(payload@ =~= start_bytes(channel));
    payload
}

/// Payload for [`CtrlCmd::StartStop`] that stops a channel.
pub fn stop_payload(channel: u8) -> (payload: [u8; 2])
    requires
        channel < 255,
    ensures
        payload@ == stop_bytes(channel),
{
    let payload = [channel + 1, 0x00];
    assert(payload@ =~= stop_bytes(channel));
    payload
}

// ───────────────────────────── Laws ─────────────────────────────

/// A control packet is 64 bytes, and the XOR of its bytes up to and including the
/// checksum is zero.
pub proof fn law_ctrl_packet_checksum(cmd: u8, payload: Seq<u8>)
    requires
        payload.len() <= CTRL_PACKET_LEN - 5,
    ensures
        ctrl_packet(cmd, payload).len() == CTRL_PACKET_LEN,
        bytes::xor_of(ctrl_packet(cmd, payload).take(5 + payload.len() as int)) == 0,
{
    let head = ctrl_head(cmd, payload);
    bytes::law_checksum_cancels(head);
    assert(ctrl_packet(cmd, payload).take(5 + payload.len() as int) =~= head.push(
        bytes::xor_of(head),
    ));
}

/// Requests and accepted responses share one layout: a packed command, read as the
/// response to itself, is accepted and carries its own payload, as far as a
/// response has room for it.
pub proof fn law_ctrl_packet_reads_back(cmd: u8, payload: Seq<u8>, resp: CtrlResp)
    requires
        payload.len() <= CTRL_PACKET_LEN - 5,
        resp.decodes(ctrl_packet(cmd, payload)),
    ensures
        reply_fault(ctrl_packet(cmd, payload), cmd) is None,
        !reply_refused(ctrl_packet(cmd, payload)),
        resp.cmd_echo == cmd,
        resp.length == payload.len(),
        payload.len() <= 32 ==> resp.valid_bytes() == payload,
        payload.len() > 32 ==> resp.valid_bytes() == payload.take(32),
{
    let buf = ctrl_packet(cmd, payload);
    assert(buf[2] == payload.len());
    let n = reply_copied(buf);
    assert(buf.subrange(4, 4 + n) =~= payload.take(n));
    assert(resp.valid_bytes() =~= payload.take(n));
    assert(payload.take(payload.len() as int) =~= payload);
}

/// A response is never accepted for a command other than the one it echoes.
pub proof fn law_reply_answers_one_command(buf: Seq<u8>, cmd: u8, r: Result<CtrlResp, Error>)
    requires
        reply_outcome(buf, cmd, r),
        r is Ok,
    ensures
        forall|other: u8, s: Result<CtrlResp, Error>|
            other != cmd && #[trigger] reply_outcome(buf, other, s) ==> s is Err,
{
}

/// Where everything stands in a control packet: start of frame, command, payload
/// length and a zero, then the payload, then the XOR of all that, then zeros.
pub proof fn law_ctrl_packet_layout(cmd: u8, payload: Seq<u8>)
    requires
        payload.len() <= 59,
    ensures
        ({
            let packet = ctrl_packet(cmd, payload);
            let n = payload.len() as int;
            &&& packet.len() == 64
            &&& packet[0] == 0x7e
            &&& packet[1] == cmd
            &&& packet[2] == n
            &&& packet[3] == 0
            &&& packet.subrange(4, 4 + n) == payload
            &&& packet[4 + n] == bytes::xor_of(packet.take(4 + n))
            &&& forall|i: int| 5 + n <= i < 64 ==> #[trigger] packet[i] == 0
        }),
{
    let packet = ctrl_packet(cmd, payload);
    let n = payload.len() as int;
    assert(packet.subrange(4, 4 + n) =~= payload);
    assert(packet.take(4 + n) =~= ctrl_head(cmd, payload));
}

/// What a response means. It must be four bytes or more, start with `0x7e` and echo the
/// command. Bit 7 of its length byte then marks a refusal; else the response is
/// accepted and its payload is the bytes behind the header, as many as it announces,
/// up to 32.
pub proof fn law_reply_meaning(buf: Seq<u8>, cmd: u8, r: Result<CtrlResp, Error>)
    requires
        reply_outcome(buf, cmd, r),
    ensures
        buf.len() < 4 || buf[0] != 0x7e || buf[1] != cmd ==> r is Err && r->Err_0 is Protocol,
        buf.len() < 4 ==> r->Err_0->Protocol_0@ == "control response shorter than 4 bytes"@,
        buf.len() >= 4 && buf[0] != 0x7e ==> r->Err_0->Protocol_0@
            == "control response missing 0x7e start-of-frame"@,
        buf.len() >= 4 && buf[0] == 0x7e && buf[1] != cmd ==> r->Err_0->Protocol_0@
            == "control response echoed a different command"@,
        buf.len() >= 4 && buf[0] == 0x7e && buf[1] == cmd && buf[2] & 0x80 != 0 ==> r
            == Err::<CtrlResp, Error>(Error::Rejected { cmd, status: buf[2] }),
        buf.len() >= 4 && buf[0] == 0x7e && buf[1] == cmd && buf[2] & 0x80 == 0 ==> {
            &&& r matches Ok(resp)
            &&& resp.cmd_echo == cmd
            &&& resp.length == buf[2]
            &&& resp.valid_bytes().len() == (if buf[2] <= 32 {
                buf[2] as int
            } else {
                32
            })
            &&& forall|i: int|
                0 <= i < resp.valid_bytes().len() ==> #[trigger] resp.valid_bytes()[i] == (if 4 + i
                    < buf.len() {
                    buf[4 + i]
                } else {
                    0
                })
        },
{
    if buf.len() >= 4 {
        bytes::lemma_flag_fields(buf[2]);
    }
}

/// The commands of a channel name it by its number plus one. Starting and stopping
/// differ in one bit; the timing command carries the mode byte and then the timing
/// word, least significant byte first.
pub proof fn law_channel_payloads(channel: u8, mode_flag: u8, timing: u32)
    requires
        channel < 255,
    ensures
        start_bytes(channel).len() == 2 && stop_bytes(channel).len() == 2,
        start_bytes(channel)[0] == channel + 1 && stop_bytes(channel)[0] == channel + 1,
        start_bytes(channel)[1] == 0x80 && stop_bytes(channel)[1] == 0x00,
        set_bit_timing_bytes(channel, mode_flag, timing).len() == 6,
        set_bit_timing_bytes(channel, mode_flag, timing)[0] == channel + 1,
        set_bit_timing_bytes(channel, mode_flag, timing)[1] == mode_flag,
        ({
            let p = set_bit_timing_bytes(channel, mode_flag, timing);
            p[2] + 0x100 * p[3] + 0x1_0000 * p[4] + 0x100_0000 * p[5] == timing
        }),
        init_channel_bytes(channel).len() == 7,
        init_channel_bytes(channel)[1] == channel + 1,
        init_channel_bytes(channel).update(1, 0) == seq![0x01u8, 0, 0x01, 0, 0x18, 0, 0],
{
    bytes::law_le32_digits(timing);
    assert(init_channel_bytes(channel).update(1, 0) =~= seq![0x01u8, 0, 0x01, 0, 0x18, 0, 0]);
}

/// The command bytes, and that no two commands share one.
pub proof fn law_command_bytes(a: CtrlCmd, b: CtrlCmd)
    ensures
        CtrlCmd::Probe.command_byte() == 0x01,
        CtrlCmd::InitChannel.command_byte() == 0x02,
        CtrlCmd::SetBitTiming.command_byte() == 0x23,
        CtrlCmd::StartStop.command_byte() == 0x24,
        CtrlCmd::SetReference.command_byte() == 0x25,
        CtrlCmd::TxErrRecover.command_byte() == 0x27,
        CtrlCmd::GetStatus.command_byte() == 0x2c,
        a.command_byte() == b.command_byte() ==> a == b,
{
}

} // verus!
