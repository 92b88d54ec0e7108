//! Decoding the stream of 24-byte records that the adapter delivers.

use vstd::prelude::*;

use super::bytes;
use super::bytes::join_le32;
use super::frame::{CanFrame, FRAME_LEN};

verus! {

/// Everything decoded out of one read from [`EP_DATA_IN`](super::EP_DATA_IN).
#[derive(Debug, Clone)]
pub struct RxChunk {
    /// Received CAN data frames, in arrival order, both channels interleaved.
    pub frames: Vec<CanFrame>,
    /// Bus status and error reports.
    pub status: Vec<RxStatus>,
    /// Records whose type byte was not recognized, kept verbatim for diagnosis.
    pub unknown: Vec<[u8; FRAME_LEN]>,
}

/// Classification of a status record.
#[derive(Debug, Clone, Copy, PartialEq, Eq, PartialOrd, Ord, Structural)]
pub enum RxStatusKind {
    /// `0xE1` — a queued transmission was aborted.
    TxAbort,
    /// `0xE2` — receive buffer overflowed; frames were lost.
    Overflow,
    /// `0xE3` — generic CAN controller error.
    CanError,
    /// `0xE4` — single-byte status report.
    Status,
    /// `0xE5` — bus error or error-passive.
    ///
    /// A steady stream of these normally means the controller is transmitting
    /// with nobody acknowledging: a lone node on the bus, a bit-rate mismatch,
    /// or missing bus termination.
    BusErrorOrPassive,
    /// `0xE6` — other vendor-defined status.
    Other,
}

/// A bus status or error record.
#[derive(Debug, Clone, Copy)]
pub struct RxStatus {
    /// What the record reports.
    pub kind: RxStatusKind,
    /// The full 24-byte record.
    pub raw: [u8; FRAME_LEN],
}

// ───────────────────────────── Model ─────────────────────────────

/// The complete records of `buf`, in order. A trailing partial record is not one.
pub open spec fn records(buf: Seq<u8>) -> Seq<Seq<u8>> {
    Seq::new(buf.len() / 24, |i: int| buf.subrange(24 * i, 24 * i + 24))
}

/// Whether a record is a data frame of one of the two channels.
pub open spec fn is_frame_record(r: Seq<u8>) -> bool {
    r[1] == 0x00 && r[3] / 16 % 4 < 2
}

/// Whether a record is a data frame that names a channel that does not exist.
pub open spec fn is_dropped_record(r: Seq<u8>) -> bool {
    r[1] == 0x00 && r[3] / 16 % 4 >= 2
}

/// Whether a record is a bus status or error report.
pub open spec fn is_status_record(r: Seq<u8>) -> bool {
    0xe1 <= r[1] <= 0xe6
}

/// Whether a record is of none of the known kinds.
pub open spec fn is_unknown_record(r: Seq<u8>) -> bool {
    r[1] != 0x00 && !is_status_record(r)
}

/// The kind of status that a type byte stands for.
pub open spec fn status_kind(code: u8) -> RxStatusKind {
    if code == 0xe1 {
        RxStatusKind::TxAbort
    } else if code == 0xe2 {
        RxStatusKind::Overflow
    } else if code == 0xe3 {
        RxStatusKind::CanError
    } else if code == 0xe4 {
        RxStatusKind::Status
    } else if code == 0xe5 {
        RxStatusKind::BusErrorOrPassive
    } else {
        RxStatusKind::Other
    }
}

/// The 24 bytes of a record as an array.
pub open spec fn record_array(r: Seq<u8>) -> [u8; FRAME_LEN] {
    [
        r[0], r[1], r[2], r[3], r[4], r[5], r[6], r[7], r[8], r[9], r[10], r[11],
        r[12], r[13], r[14], r[15], r[16], r[17], r[18], r[19], r[20], r[21], r[22], r[23],
    ]
}

/// The status report that a record carries.
pub open spec fn status_of(r: Seq<u8>) -> RxStatus {
    RxStatus { kind: status_kind(r[1]), raw: record_array(r) }
}

/// The data frames among `records`, decoded.
pub open spec fn frames_in(records: Seq<Seq<u8>>) -> Seq<CanFrame> {
    records.filter(|r: Seq<u8>| is_frame_record(r)).map_values(
        |r: Seq<u8>| CanFrame::from_record(r),
    )
}

/// The status reports among `records`, decoded.
pub open spec fn status_in(records: Seq<Seq<u8>>) -> Seq<RxStatus> {
    records.filter(|r: Seq<u8>| is_status_record(r)).map_values(|r: Seq<u8>| status_of(r))
}

/// The unknown records among `records`, verbatim.
pub open spec fn unknown_in(records: Seq<Seq<u8>>) -> Seq<[u8; FRAME_LEN]> {
    records.filter(|r: Seq<u8>| is_unknown_record(r)).map_values(|r: Seq<u8>| record_array(r))
}

/// The frames of `frames` that belong to `channel`.
pub open spec fn on_channel(frames: Seq<CanFrame>, channel: u8) -> Seq<CanFrame> {
    frames.filter(|f: CanFrame| f.channel == channel)
}

// ───────────────────────────── Decoding ─────────────────────────────

impl RxChunk {
    /// Whether the chunk holds exactly what the records of `buf` carry.
    pub open spec fn decodes(self, buf: Seq<u8>) -> bool {
        &&& self.frames@ == frames_in(records(buf))
        &&& self.status@ == status_in(records(buf))
        &&& self.unknown@ == unknown_in(records(buf))
    }

    /// Whether nothing at all was decoded.
    pub fn is_empty(&self) -> (empty: bool)
        ensures
            empty == (self.frames@.len() == 0 && self.status@.len() == 0 && self.unknown@.len()
                == 0),
    {
        self.frames.len() == 0 && self.status.len() == 0 && self.unknown.len() == 0
    }

    /// The frames belonging to `channel`, in arrival order.
    pub fn frames_on(&self, channel: u8) -> (frames: Vec<CanFrame>)
        ensures
            frames@ == on_channel(self.frames@, channel),
    {
        let mut frames: Vec<CanFrame> = Vec::new();
        let mut i: usize = 0;
        while i < self.frames.len()
            invariant
                i <= self.frames@.len(),
                frames@ == on_channel(self.frames@.take(i as int), channel),
            decreases self.frames@.len() - i,
        {
            proof {
                lemma_filter_step(self.frames@, i as int, |f: CanFrame| f.channel == channel);
            }
            if self.frames[i].channel == channel {
                frames.push(self.frames[i]);
            }
            i += 1;
        }
        assert(self.frames@.take(i as int) =~= self.frames@);
        frames
    }
}

impl Default for RxChunk {
    fn default() -> (chunk: Self)
        ensures
            chunk.frames@.len() == 0,
            chunk.status@.len() == 0,
            chunk.unknown@.len() == 0,
    {
        RxChunk { frames: Vec::new(), status: Vec::new(), unknown: Vec::new() }
    }
}

/// One more element extends a filtered prefix by that element or by nothing.
proof fn lemma_filter_step<A>(s: Seq<A>, i: int, keep: spec_fn(A) -> bool)
    requires
        0 <= i < s.len(),
    ensures
        s.take(i + 1).filter(keep) == if keep(s[i]) {
            s.take(i).filter(keep).push(s[i])
        } else {
            s.take(i).filter(keep)
        },
{
    reveal(Seq::filter);
    assert(s.take(i + 1).drop_last() =~= s.take(i));
}

/// Decode the data record that starts at `at`.
fn decode_frame(buf: &[u8], at: usize) -> (frame: CanFrame)
    requires
        at + 24 <= buf.len(),
    ensures
        frame == CanFrame::from_record(buf@.subrange(at as int, at + 24)),
{
    let f: &[u8] = &buf[at..at + 24];
    let extended: bool = f[3] >= 128;
    let id: u32 = join_le32(f[8], f[9], f[10], f[11]);
    let dlc: u8 = f[3] % 16;
    CanFrame {
        id: if extended { id % 0x2000_0000 } else { id % 0x800 },
        extended,
        remote: f[3] / 64 % 2 == 1,
        dlc: if dlc <= 8 { dlc } else { 8 },
        data: [f[12], f[13], f[14], f[15], f[16], f[17], f[18], f[19]],
        channel: f[3] / 16 % 4,
        timestamp_us: join_le32(f[4], f[5], f[6], f[7]),
        send_type: f[2],
    }
}

/// Copy the record that starts at `at`.
fn copy_record(buf: &[u8], at: usize) -> (raw: [u8; FRAME_LEN])
    requires
        at + 24 <= buf.len(),
    ensures
        raw == record_array(buf@.subrange(at as int, at + 24)),
{
    let r: &[u8] = &buf[at..at + 24];
    [
        r[0], r[1], r[2], r[3], r[4], r[5], r[6], r[7], r[8], r[9], r[10], r[11],
        r[12], r[13], r[14], r[15], r[16], r[17], r[18], r[19], r[20], r[21], r[22], r[23],
    ]
}

/// The kind of status that a type byte stands for.
fn kind_of(code: u8) -> (kind: RxStatusKind)
    ensures
        kind == status_kind(code),
{
    match code {
        0xe1 => RxStatusKind::TxAbort,
        0xe2 => RxStatusKind::Overflow,
        0xe3 => RxStatusKind::CanError,
        0xe4 => RxStatusKind::Status,
        0xe5 => RxStatusKind::BusErrorOrPassive,
        _ => RxStatusKind::Other,
    }
}

/// Split a receive chunk into frames and status records.
///
/// Records are a flat array of 24-byte entries. Byte 1 selects the kind: `0x00`
/// is a data frame, `0xE1..=0xE6` are status records. Byte 0 is not checked:
/// data frames have been observed with values other than `0x0f`.
///
/// Data frames whose channel field is `>= 2` are dropped, and so is a trailing
/// partial record. Identifiers are masked to 11 or 29 bits, and lengths above 8 are
/// taken for 8.
pub fn parse_rx_chunk(buf: &[u8]) -> (chunk: RxChunk)
    ensures
        chunk.decodes(buf@),
{
    let mut chunk: RxChunk = RxChunk::default();
    let count: usize = buf.len() / FRAME_LEN;
    let ghost all = records(buf@);
    let ghost frame_kind = |r: Seq<u8>| is_frame_record(r);
    let ghost status_kind = |r: Seq<u8>| is_status_record(r);
    let ghost unknown_kind = |r: Seq<u8>| is_unknown_record(r);
    let mut i: usize = 0;
    assert(chunk.frames@ =~= frames_in(all.take(0)));
    assert(chunk.status@ =~= status_in(all.take(0)));
    assert(chunk.unknown@ =~= unknown_in(all.take(0)));
    while i < count
        invariant
            i <= count,
            count == buf.len() / 24,
            all == records(buf@),
            frame_kind == (|r: Seq<u8>| is_frame_record(r)),
            status_kind == (|r: Seq<u8>| is_status_record(r)),
            unknown_kind == (|r: Seq<u8>| is_unknown_record(r)),
            chunk.frames@ == frames_in(all.take(i as int)),
            chunk.status@ == status_in(all.take(i as int)),
            chunk.unknown@ == unknown_in(all.take(i as int)),
        decreases count - i,
    {
        let at: usize = i * 24;
        let ghost r = all[i as int];
        proof {
            assert(r == buf@.subrange(at as int, at + 24));
            assert(r[1] == buf@[at + 1] && r[3] == buf@[at + 3]);
            lemma_filter_step(all, i as int, frame_kind);
            lemma_filter_step(all, i as int, status_kind);
            lemma_filter_step(all, i as int, unknown_kind);
        }
        let kind: u8 = buf[at + 1];
        if kind == 0x00 {
            let channel: u8 = buf[at + 3] / 16 % 4;
            if channel < 2 {
                chunk.frames.push(decode_frame(buf, at));
            }
        } else if kind >= 0xe1 && kind <= 0xe6 {
            chunk.status.push(RxStatus { kind: kind_of(kind), raw: copy_record(buf, at) });
        } else {
            chunk.unknown.push(copy_record(buf, at));
        }
        i += 1;
        assert(chunk.frames@ =~= frames_in(all.take(i as int)));
        assert(chunk.status@ =~= status_in(all.take(i as int)));
        assert(chunk.unknown@ =~= unknown_in(all.take(i as int)));
    }
    assert(all.take(i as int) =~= all);
    chunk
}

// ───────────────────────────── Laws ─────────────────────────────

/// Every received frame belongs to channel 0 or channel 1.
pub proof fn law_received_channels(buf: Seq<u8>)
    ensures
        forall|i: int|
            0 <= i < frames_in(records(buf)).len() ==> (#[trigger] frames_in(
                records(buf),
            )[i]).channel < 2,
{
    let kind = |r: Seq<u8>| is_frame_record(r);
    assert forall|i: int| 0 <= i < frames_in(records(buf)).len() implies (#[trigger] frames_in(
        records(buf),
    )[i]).channel < 2 by {
        records(buf).lemma_filter_pred(kind, i);
        assert(frames_in(records(buf))[i] == CanFrame::from_record(records(buf).filter(kind)[i]));
    }
}

/// Every received frame is one that the format allows: its identifier has 11 or 29
/// bits, its length is at most 8, and its channel exists.
pub proof fn law_received_frames_in_range(buf: Seq<u8>)
    ensures
        forall|i: int|
            0 <= i < frames_in(records(buf)).len() ==> (#[trigger] frames_in(
                records(buf),
            )[i]).in_range(),
{
    let kind = |r: Seq<u8>| is_frame_record(r);
    assert forall|i: int| 0 <= i < frames_in(records(buf)).len() implies (#[trigger] frames_in(
        records(buf),
    )[i]).in_range() by {
        records(buf).lemma_filter_pred(kind, i);
        assert(frames_in(records(buf))[i] == CanFrame::from_record(records(buf).filter(kind)[i]));
    }
}

/// A chunk that ends at a record boundary decodes the same on its own and as the
/// first part of a longer chunk.
pub proof fn law_chunks_concatenate(a: Seq<u8>, b: Seq<u8>)
    requires
        a.len() % 24 == 0,
    ensures
        frames_in(records(a + b)) == frames_in(records(a)) + frames_in(records(b)),
        status_in(records(a + b)) == status_in(records(a)) + status_in(records(b)),
        unknown_in(records(a + b)) == unknown_in(records(a)) + unknown_in(records(b)),
{
    let n = (a.len() / 24) as int;
    assert((a + b).len() / 24 == n + b.len() / 24);
    assert forall|i: int| 0 <= i < (a + b).len() / 24 implies records(a + b)[i] == (records(a)
        + records(b))[i] by {
        if i < n {
            assert((a + b).subrange(24 * i, 24 * i + 24) =~= a.subrange(24 * i, 24 * i + 24));
        } else {
            let j = i - n;
            assert((a + b).subrange(24 * i, 24 * i + 24) =~= b.subrange(24 * j, 24 * j + 24));
        }
    }
    assert(records(a + b) =~= records(a) + records(b));
    Seq::filter_distributes_over_add(records(a), records(b), |r: Seq<u8>| is_frame_record(r));
    Seq::filter_distributes_over_add(records(a), records(b), |r: Seq<u8>| is_status_record(r));
    Seq::filter_distributes_over_add(records(a), records(b), |r: Seq<u8>| is_unknown_record(r));
    assert(frames_in(records(a + b)) =~= frames_in(records(a)) + frames_in(records(b)));
    assert(status_in(records(a + b)) =~= status_in(records(a)) + status_in(records(b)));
    assert(unknown_in(records(a + b)) =~= unknown_in(records(a)) + unknown_in(records(b)));
}

/// A trailing partial record has no effect.
pub proof fn law_partial_record_ignored(buf: Seq<u8>)
    ensures
        records(buf) == records(buf.take((buf.len() / 24 * 24) as int)),
{
    let whole = buf.take((buf.len() / 24 * 24) as int);
    assert forall|i: int| 0 <= i < buf.len() / 24 implies records(buf)[i] == records(whole)[i] by {
        assert(buf.subrange(24 * i, 24 * i + 24) =~= whole.subrange(24 * i, 24 * i + 24));
    }
    assert(records(buf) =~= records(whole));
}

/// Every record ends up as a frame, a status report or an unknown record, or is a
/// data frame of a channel that does not exist; none is counted twice.
pub proof fn law_every_record_accounted(rs: Seq<Seq<u8>>)
    ensures
        frames_in(rs).len() + status_in(rs).len() + unknown_in(rs).len() + rs.filter(
            |r: Seq<u8>| is_dropped_record(r),
        ).len() == rs.len(),
    decreases rs.len(),
{
    reveal(Seq::filter);
    if rs.len() > 0 {
        law_every_record_accounted(rs.drop_last());
    }
}

/// Byte 0 of a record has no effect on how it is classified and decoded.
pub proof fn law_first_byte_ignored(r: Seq<u8>, byte: u8)
    requires
        r.len() == 24,
    ensures
        is_frame_record(r.update(0, byte)) == is_frame_record(r),
        is_dropped_record(r.update(0, byte)) == is_dropped_record(r),
        is_status_record(r.update(0, byte)) == is_status_record(r),
        is_unknown_record(r.update(0, byte)) == is_unknown_record(r),
        CanFrame::from_record(r.update(0, byte)) == CanFrame::from_record(r),
        status_of(r.update(0, byte)).kind == status_of(r).kind,
{
}

/// A serialized frame, read back as a receive chunk, is exactly one data frame;
/// [`law_frame_roundtrip`](super::frame::law_frame_roundtrip) says which.
pub proof fn law_packed_frame_is_received(frame: CanFrame)
    requires
        frame.channel % 4 < 2,
    ensures
        frames_in(records(frame.record())) == seq![CanFrame::from_record(frame.record())],
        status_in(records(frame.record())).len() == 0,
        unknown_in(records(frame.record())).len() == 0,
{
    let buf = frame.record();
    super::frame::law_record_shape(frame);
    super::frame::law_frame_roundtrip(frame);
    assert(records(buf) =~= seq![buf]) by {
        assert(buf.subrange(0, 24) =~= buf);
    }
    reveal_with_fuel(Seq::filter, 2);
    assert(seq![buf].drop_last() =~= Seq::empty());
    assert(frames_in(records(buf)) =~= seq![CanFrame::from_record(buf)]);
}

/// The two channels share the received frames between them.
pub proof fn law_frames_split_by_channel(frames: Seq<CanFrame>)
    requires
        forall|i: int| 0 <= i < frames.len() ==> (#[trigger] frames[i]).channel < 2,
    ensures
        on_channel(frames, 0).len() + on_channel(frames, 1).len() == frames.len(),
        forall|c: u8, i: int|
            0 <= i < on_channel(frames, c).len() ==> (#[trigger] on_channel(frames, c)[i]).channel
                == c,
    decreases frames.len(),
{
    assert forall|c: u8, i: int| 0 <= i < on_channel(frames, c).len() implies (
    #[trigger] on_channel(frames, c)[i]).channel == c by {
        frames.lemma_filter_pred(|f: CanFrame| f.channel == c, i);
    }
    reveal(Seq::filter);
    if frames.len() > 0 {
        law_frames_split_by_channel(frames.drop_last());
    }
}

/// What becomes of one record, by its type byte: `0x00` is a data frame, dropped if its
/// channel does not exist; `0xE1` to `0xE6` are status reports; all else is kept as it
/// is. Longer chunks are taken apart by [`law_chunks_concatenate`].
pub proof fn law_record_kinds(r: Seq<u8>)
    requires
        r.len() == 24,
    ensures
        ({
            let frames = frames_in(records(r));
            let status = status_in(records(r));
            let unknown = unknown_in(records(r));
            if r[1] == 0 {
                &&& status.len() == 0 && unknown.len() == 0
                &&& (r[3] >> 4) & 3 < 2 ==> frames == seq![CanFrame::from_record(r)]
                &&& (r[3] >> 4) & 3 >= 2 ==> frames.len() == 0
            } else if 0xe1 <= r[1] <= 0xe6 {
                &&& frames.len() == 0 && unknown.len() == 0
                &&& status.len() == 1
                &&& status[0].raw@ == r
                &&& status[0].kind == seq![
                    RxStatusKind::TxAbort,
                    RxStatusKind::Overflow,
                    RxStatusKind::CanError,
                    RxStatusKind::Status,
                    RxStatusKind::BusErrorOrPassive,
                    RxStatusKind::Other,
                ][r[1] - 0xe1]
            } else {
                &&& frames.len() == 0 && status.len() == 0
                &&& unknown.len() == 1
                &&& unknown[0]@ == r
            }
        }),
{
    bytes::lemma_flag_fields(r[3]);
    assert(records(r) =~= seq![r]) by {
        assert(r.subrange(0, 24) =~= r);
    }
    reveal_with_fuel(Seq::filter, 2);
    assert(seq![r].drop_last() =~= Seq::empty());
    assert(is_frame_record(r) ==> frames_in(records(r)) =~= seq![CanFrame::from_record(r)]);
    assert(record_array(r)@ =~= r);
}

/// A chunk shorter than a record holds nothing.
pub proof fn law_short_chunk_is_empty(buf: Seq<u8>)
    requires
        buf.len() < 24,
    ensures
        frames_in(records(buf)).len() == 0,
        status_in(records(buf)).len() == 0,
        unknown_in(records(buf)).len() == 0,
{
    reveal(Seq::filter);
    assert(records(buf) =~= Seq::empty());
}

/// The frames on a channel are those that carry it, each of them and in order: a frame
/// more is one more on its channel, and none on any other.
pub proof fn law_frames_on_channel(frames: Seq<CanFrame>, frame: CanFrame, channel: u8)
    ensures
        on_channel(Seq::<CanFrame>::empty(), channel).len() == 0,
        on_channel(frames.push(frame), channel) == if frame.channel == channel {
            on_channel(frames, channel).push(frame)
        } else {
            on_channel(frames, channel)
        },
{
    reveal(Seq::filter);
    assert(frames.push(frame).drop_last() =~= frames);
}

} // verus!
