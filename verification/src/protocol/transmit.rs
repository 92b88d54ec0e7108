//! Transmit packets and the acknowledgement that follows each of them.

use vstd::prelude::*;

use super::bytes;
use super::frame::{pack_frame, CanFrame, FRAME_LEN};
use crate::error::Error;

verus! {

/// Transmit packets are padded to at least this length.
pub const TX_PACKET_MIN_LEN: usize = 80;

/// First byte of a transmit packet header.
pub const TX_HEADER_MAGIC: u8 = 0x8e;

/// Length of the transmit packet header.
pub const TX_HEADER_LEN: usize = 8;

/// Maximum frames the driver will place in one transmit packet.
pub const MAX_FRAMES_PER_PACKET: usize = 127;

/// The 5-byte reply read from [`EP_TX_ACK_IN`](super::EP_TX_ACK_IN) after a
/// transmit packet.
#[derive(Debug, Clone, Copy)]
pub struct TxAck {
    /// `0x0e` means the frames were accepted.
    pub status: u8,
    /// `0x81` for channel 0, `0x91` for channel 1.
    pub channel_marker: u8,
    /// Echo of the last frame's DLC.
    pub dlc_echo: u8,
}

// ───────────────────────────── Model ─────────────────────────────

/// The transmit packet header. The frame count is big-endian.
pub open spec fn tx_header(frame_count: u16, channel: u8, started: bool, priority: u8) -> Seq<u8> {
    seq![
        TX_HEADER_MAGIC,
        (frame_count / 256) as u8,
        (frame_count % 256) as u8,
        if started {
            1u8
        } else {
            0u8
        },
        channel,
        if priority >= 1 {
            priority
        } else {
            1u8
        },
        0u8,
        0u8,
    ]
}

/// `frame` as it goes out on `channel`: the channel is set, the timestamp cleared.
pub open spec fn outgoing(frame: CanFrame, channel: u8) -> CanFrame {
    CanFrame { channel, timestamp_us: 0, ..frame }
}

/// The records of `frames`, one after another, as they go out on `channel`.
pub open spec fn tx_records(frames: Seq<CanFrame>, channel: u8) -> Seq<u8>
    decreases frames.len(),
{
    if frames.len() == 0 {
        Seq::empty()
    } else {
        tx_records(frames.drop_last(), channel) + outgoing(frames.last(), channel).record()
    }
}

/// A transmit packet: header, records, zero padding to 80 bytes.
pub open spec fn tx_packet(frames: Seq<CanFrame>, channel: u8, started: bool) -> Seq<u8> {
    let body = tx_header(frames.len() as u16, channel, started, 1) + tx_records(frames, channel);
    body + bytes::zeros(
        if body.len() < TX_PACKET_MIN_LEN {
            (TX_PACKET_MIN_LEN - body.len()) as nat
        } else {
            0
        },
    )
}

// ───────────────────────────── Packing ─────────────────────────────

/// Build the 8-byte transmit packet header.
///
/// Note that `frame_count` is **big-endian** here, unlike every other multi-byte
/// field in this protocol. The priority is at least 1.
pub fn pack_tx_header(frame_count: u16, channel: u8, started: bool, priority: u8) -> (h: [u8;
    TX_HEADER_LEN])
    ensures
        h@ == tx_header(frame_count, channel, started, priority),
{
    let h = [
        TX_HEADER_MAGIC,
        (frame_count / 256) as u8,
        (frame_count % 256) as u8,
        if started { 1u8 } else { 0u8 },
        channel,
        if priority >= 1 { priority } else { 1u8 },
        0u8,
        0u8,
    ];
    assert(h@ =~= tx_header(frame_count, channel, started, priority));
    h
}

/// Build a complete transmit packet: header, frames, padding.
///
/// A packet carries frames for exactly one channel, so `channel` overrides
/// [`CanFrame::channel`] on every frame. It appears in both the header and each
/// frame's flag byte. The timestamp field of every frame is zero on the wire.
pub fn pack_tx_packet(frames: &[CanFrame], channel: u8, started: bool) -> (packet: Vec<u8>)
    requires
        1 <= frames@.len() <= MAX_FRAMES_PER_PACKET,
    ensures
        packet@ == tx_packet(frames@, channel, started),
{
    let header = pack_tx_header(frames.len() as u16, channel, started, 1);
    let mut buf: Vec<u8> = Vec::new();
    buf.extend_from_slice(&header);
    let ghost head = tx_header(frames@.len() as u16, channel, started, 1);
    let mut i: usize = 0;
    assert(buf@ =~= head + tx_records(frames@.take(0), channel));
    while i < frames.len()
        invariant
            i <= frames@.len(),
            buf@ == head + tx_records(frames@.take(i as int), channel),
        decreases frames@.len() - i,
    {
        let frame = CanFrame { channel, timestamp_us: 0, ..frames[i] };
        let record: [u8; FRAME_LEN] = pack_frame(&frame);
        buf.extend_from_slice(&record);
        assert(frames@.take(i + 1).drop_last() =~= frames@.take(i as int));
        assert(buf@ =~= head + tx_records(frames@.take(i + 1), channel));
        i += 1;
    }
    assert(frames@.take(i as int) =~= frames@);
    let ghost body = buf@;
    while buf.len() < TX_PACKET_MIN_LEN
        invariant
            body.len() <= buf@.len(),
            body.len() < TX_PACKET_MIN_LEN ==> buf@.len() <= TX_PACKET_MIN_LEN,
            body.len() >= TX_PACKET_MIN_LEN ==> buf@.len() == body.len(),
            buf@ =~= body + bytes::zeros((buf@.len() - body.len()) as nat),
        decreases TX_PACKET_MIN_LEN - buf@.len(),
    {
        buf.push(0);
    }
    buf
}

// ───────────────────────────── Acknowledgement ─────────────────────────────

impl TxAck {
    /// Whether the device accepted the transmission.
    pub fn is_success(&self) -> (ok: bool)
        ensures
            ok == (self.status == 0x0e),
    {
        self.status == 0x0e
    }
}

/// What [`parse_tx_ack`] makes of the reply `buf`.
pub open spec fn ack_outcome(buf: Seq<u8>, r: Result<TxAck, Error>) -> bool {
    if buf.len() < 5 {
        crate::error::protocol_error(r, "transmit ack shorter than 5 bytes"@)
    } else {
        r matches Ok(ack) && ack == (TxAck {
            status: buf[0],
            channel_marker: buf[1],
            dlc_echo: buf[2],
        })
    }
}

/// Parse a transmit acknowledgement.
pub fn parse_tx_ack(buf: &[u8]) -> (r: Result<TxAck, Error>)
    ensures
        ack_outcome(buf@, r),
{
    if buf.len() < 5 {
        return Err(Error::Protocol("transmit ack shorter than 5 bytes"));
    }
    Ok(TxAck { status: buf[0], channel_marker: buf[1], dlc_echo: buf[2] })
}

// ───────────────────────────── Laws ─────────────────────────────

/// The records of `n` frames are `24 * n` bytes, and record `i` is that of frame `i`.
pub proof fn law_tx_records_layout(frames: Seq<CanFrame>, channel: u8)
    ensures
        tx_records(frames, channel).len() == FRAME_LEN * frames.len(),
        forall|i: int|
            0 <= i < frames.len() ==> #[trigger] tx_records(frames, channel).subrange(
                24 * i,
                24 * i + 24,
            ) == outgoing(frames[i], channel).record(),
    decreases frames.len(),
{
    if frames.len() > 0 {
        let init = frames.drop_last();
        let all = tx_records(frames, channel);
        law_tx_records_layout(init, channel);
        super::frame::law_record_shape(outgoing(frames.last(), channel));
        assert forall|i: int| 0 <= i < frames.len() implies #[trigger] all.subrange(
            24 * i,
            24 * i + 24,
        ) == outgoing(frames[i], channel).record() by {
            if i < init.len() {
                assert(all.subrange(24 * i, 24 * i + 24) =~= tx_records(init, channel).subrange(
                    24 * i,
                    24 * i + 24,
                ));
            } else {
                assert(all.subrange(24 * i, 24 * i + 24) =~= outgoing(
                    frames.last(),
                    channel,
                ).record());
            }
        }
    }
}

/// A transmit packet is at least 80 bytes long, and exactly as long as its header
/// and records when those are longer.
pub proof fn law_tx_packet_length(frames: Seq<CanFrame>, channel: u8, started: bool)
    ensures
        tx_packet(frames, channel, started).len() == if TX_HEADER_LEN + FRAME_LEN * frames.len()
            >= TX_PACKET_MIN_LEN {
            (TX_HEADER_LEN + FRAME_LEN * frames.len()) as nat
        } else {
            TX_PACKET_MIN_LEN as nat
        },
{
    law_tx_records_layout(frames, channel);
}

/// The timestamp and the channel of the frames themselves have no effect on the
/// packet: transmit ignores the one, and the packet's channel replaces the other.
pub proof fn law_transmit_ignores_timestamp_and_channel(
    a: Seq<CanFrame>,
    b: Seq<CanFrame>,
    channel: u8,
    started: bool,
)
    requires
        a.len() == b.len(),
        forall|i: int|
            0 <= i < a.len() ==> #[trigger] a[i] == (CanFrame {
                channel: a[i].channel,
                timestamp_us: a[i].timestamp_us,
                ..b[i]
            }),
    ensures
        tx_packet(a, channel, started) == tx_packet(b, channel, started),
{
    lemma_equal_records(a, b, channel);
}

proof fn lemma_equal_records(a: Seq<CanFrame>, b: Seq<CanFrame>, channel: u8)
    requires
        a.len() == b.len(),
        forall|i: int|
            0 <= i < a.len() ==> #[trigger] a[i] == (CanFrame {
                channel: a[i].channel,
                timestamp_us: a[i].timestamp_us,
                ..b[i]
            }),
    ensures
        tx_records(a, channel) == tx_records(b, channel),
    decreases a.len(),
{
    if a.len() > 0 {
        lemma_equal_records(a.drop_last(), b.drop_last(), channel);
        assert(a[a.len() - 1] == a.last());
        assert(outgoing(a.last(), channel) == outgoing(b.last(), channel));
    }
}

/// The timestamp field of every record of a packet is zero, and the record carries
/// the packet's channel, as far as it has bits for it.
pub proof fn law_tx_record_channel_and_timestamp(frame: CanFrame, channel: u8)
    ensures
        outgoing(frame, channel).record()[3] / 16 % 4 == channel % 4,
        channel < 4 ==> outgoing(frame, channel).record()[3] / 16 % 4 == channel,
        outgoing(frame, channel).record().subrange(4, 8) == bytes::zeros(4),
{
    let f = outgoing(frame, channel);
    assert(f.record()[3] == f.flag_byte());
    assert(f.record().subrange(4, 8) =~= bytes::zeros(4));
}

/// Frames arrive complete and in order: the records of a transmit packet, read as a
/// receive chunk, are exactly the frames that were packed, and nothing else.
#[verifier::spinoff_prover]
#[verifier::rlimit(40)]
pub proof fn law_packet_body_is_received(frames: Seq<CanFrame>, channel: u8)
    requires
        channel < 2,
    ensures
        super::receive::frames_in(super::receive::records(tx_records(frames, channel)))
            == frames.map_values(
            |f: CanFrame| CanFrame::from_record(outgoing(f, channel).record()),
        ),
        super::receive::status_in(super::receive::records(tx_records(frames, channel))).len() == 0,
        super::receive::unknown_in(super::receive::records(tx_records(frames, channel))).len() == 0,
    decreases frames.len(),
{
    let f = |f: CanFrame| CanFrame::from_record(outgoing(f, channel).record());
    if frames.len() == 0 {
        reveal(Seq::filter);
        assert(super::receive::records(Seq::<u8>::empty()) =~= Seq::empty());
        assert(super::receive::frames_in(Seq::empty()) =~= frames.map_values(f));
    } else {
        let init = frames.drop_last();
        let last = outgoing(frames.last(), channel);
        law_packet_body_is_received(init, channel);
        law_tx_records_layout(init, channel);
        super::receive::law_chunks_concatenate(tx_records(init, channel), last.record());
        super::receive::law_packed_frame_is_received(last);
        assert(frames.map_values(f) =~= init.map_values(f) + seq![f(frames.last())]);
    }
}

/// Where everything stands in a transmit packet: the header announces how many frames
/// follow, most significant byte first, whether the channel runs, and the channel; then
/// come the records, one for each frame, and then zeros.
pub proof fn law_tx_packet_layout(frames: Seq<CanFrame>, channel: u8, started: bool)
    requires
        1 <= frames.len() <= 127,
    ensures
        ({
            let packet = tx_packet(frames, channel, started);
            let end = 8 + 24 * frames.len();
            &&& packet.len() == (if end < 80 {
                80
            } else {
                end
            })
            &&& packet[0] == 0x8e
            &&& packet[1] * 256 + packet[2] == frames.len()
            &&& packet[3] == (if started {
                1
            } else {
                0int
            })
            &&& packet[4] == channel
            &&& packet[5] == 1
            &&& packet[6] == 0 && packet[7] == 0
            &&& forall|i: int|
                0 <= i < frames.len() ==> #[trigger] packet.subrange(8 + 24 * i, 32 + 24 * i) == (
                CanFrame { channel, timestamp_us: 0, ..frames[i] }).record()
            &&& forall|i: int| end <= i < packet.len() ==> #[trigger] packet[i] == 0
        }),
{
    let packet = tx_packet(frames, channel, started);
    let all = tx_records(frames, channel);
    law_tx_records_layout(frames, channel);
    assert forall|i: int| 0 <= i < frames.len() implies #[trigger] packet.subrange(
        8 + 24 * i,
        32 + 24 * i,
    ) == (CanFrame { channel, timestamp_us: 0, ..frames[i] }).record() by {
        assert(packet.subrange(8 + 24 * i, 32 + 24 * i) =~= all.subrange(24 * i, 24 * i + 24));
    }
}

/// The header of a packet: the priority is at least one, and the count is what the
/// two bytes in front say, most significant first.
pub proof fn law_tx_header_layout(frame_count: u16, channel: u8, started: bool, priority: u8)
    ensures
        ({
            let h = tx_header(frame_count, channel, started, priority);
            &&& h.len() == 8
            &&& h[0] == 0x8e
            &&& h[1] * 256 + h[2] == frame_count
            &&& (h[3] == 1 && started || h[3] == 0 && !started)
            &&& h[4] == channel
            &&& h[5] >= 1 && (priority >= 1 ==> h[5] == priority)
            &&& (priority == 0 ==> h[5] == 1)
            &&& h[6] == 0 && h[7] == 0
        }),
{
}

/// An acknowledgement of five bytes or more is read from its first three; a shorter
/// one is no acknowledgement.
pub proof fn law_ack_fields(buf: Seq<u8>, r: Result<TxAck, Error>)
    requires
        ack_outcome(buf, r),
    ensures
        r is Ok <==> buf.len() >= 5,
        r matches Ok(ack) ==> ack.status == buf[0] && ack.channel_marker == buf[1] && ack.dlc_echo
            == buf[2],
        r is Err ==> r->Err_0 is Protocol && r->Err_0->Protocol_0@
            == "transmit ack shorter than 5 bytes"@,
{
}

/// The largest packet holds 127 frames and is 3056 bytes long.
pub proof fn law_largest_packet(frames: Seq<CanFrame>, channel: u8, started: bool)
    requires
        1 <= frames.len() <= MAX_FRAMES_PER_PACKET,
    ensures
        MAX_FRAMES_PER_PACKET == 127,
        tx_packet(frames, channel, started).len() <= 3056,
        frames.len() == 127 ==> tx_packet(frames, channel, started).len() == 3056,
{
    law_tx_packet_layout(frames, channel, started);
}

} // verus!
