//! Verifying an adapter end to end: what one channel sends, the other receives.

use vstd::prelude::*;

use crate::device;
use crate::device::Device;
use crate::error;
use crate::error::{init_failure, Error};
use crate::protocol;
use crate::protocol::bytes;
use crate::protocol::receive;
use crate::protocol::transmit;
use crate::protocol::{Bitrate, CanFrame, RxChunk, TxAck};
use crate::text;

verus! {

/// How long a read between two transmissions waits.
pub const DRAIN_MS: u32 = 5;

/// How long a read for stragglers waits.
pub const COLLECT_MS: u32 = 100;

/// How long stragglers are waited for in all.
pub const COLLECT_BUDGET_MS: u64 = 500;

// ───────────────────────────── Frames ─────────────────────────────

/// The index as it travels in a frame: its low 32 bits.
pub open spec fn index_word(index: usize) -> u32 {
    (index as int % 0x1_0000_0000) as u32
}

/// Identifier carried by self-test frame `index`.
pub open spec fn test_id(index: usize) -> u32 {
    (0x100 + index_word(index) % 0x100) as u32
}

/// Self-test frame `index`. It carries its own index, so that it can be validated on
/// its own without assuming anything about arrival order.
pub open spec fn test_frame(index: usize) -> CanFrame {
    CanFrame::of_data(test_id(index), false, bytes::le32(index_word(index)))
}

/// Whether `frame` is a self-test frame of a run of `count`: its payload names an
/// index in range and that index produces the identifier the frame arrived with.
pub open spec fn intact(frame: CanFrame, count: usize) -> bool {
    let payload = frame.payload_bytes();
    &&& payload.len() == 4
    &&& !frame.extended
    &&& !frame.remote
    &&& ({
        let index = bytes::from_le32(payload[0], payload[1], payload[2], payload[3]);
        index < count && frame.id == test_id(index as usize)
    })
}

/// The low 32 bits of an index.
fn word_of(index: usize) -> (word: u32)
    ensures
        word == index_word(index),
{
    (index as u64 % 0x1_0000_0000) as u32
}

/// Identifier carried by self-test frame `index`.
pub fn id_for(index: usize) -> (id: u32)
    ensures
        id == test_id(index),
{
    0x100 + word_of(index) % 0x100
}

/// Self-test frame `index`.
pub fn frame_for(index: usize) -> (frame: CanFrame)
    ensures
        frame == test_frame(index),
{
    let word: u32 = word_of(index);
    let data: [u8; 4] = [
        bytes::le32_byte(word, 0),
        bytes::le32_byte(word, 1),
        bytes::le32_byte(word, 2),
        bytes::le32_byte(word, 3),
    ];
    assert(data@ =~= bytes::le32(word));
    CanFrame::new(id_for(index), false, &data)
}

/// A self-test frame is intact when its payload names an index in range and
/// that index produces the identifier the frame arrived with.
pub fn is_intact(frame: &CanFrame, count: usize) -> (yes: bool)
    ensures
        yes == intact(*frame, count),
{
    let payload = frame.payload();
    if payload.len() != 4 {
        return false;
    }
    let index: u32 = bytes::join_le32(payload[0], payload[1], payload[2], payload[3]);
    (index as usize) < count && frame.id == id_for(index as usize) && !frame.extended
        && !frame.remote
}

/// How many of `frames` are not intact.
pub open spec fn corrupted_in(frames: Seq<CanFrame>, count: usize) -> nat {
    frames.filter(|f: CanFrame| !intact(f, count)).len()
}

fn count_corrupted(frames: &[CanFrame], count: usize) -> (n: usize)
    ensures
        n == corrupted_in(frames@, count),
{
    let mut n: usize = 0;
    let mut i: usize = 0;
    let ghost bad = |f: CanFrame| !intact(f, count);
    assert(frames@.take(0).filter(bad).len() == 0) by {
        frames@.take(0).lemma_filter_len(bad);
    }
    while i < frames.len()
        invariant
            i <= frames@.len(),
            bad == (|f: CanFrame| !intact(f, count)),
            n == frames@.take(i as int).filter(bad).len(),
            n <= i,
        decreases frames@.len() - i,
    {
        proof {
            let next = frames@.take(i + 1);
            assert(next.drop_last() =~= frames@.take(i as int));
            reveal(Seq::filter);
        }
        if !is_intact(&frames[i], count) {
            n += 1;
        }
        i += 1;
    }
    assert(frames@.take(i as int) =~= frames@);
    n
}

// ───────────────────────────── One direction ─────────────────────────────

/// How one direction went.
#[derive(Debug, Clone, Copy, PartialEq, Eq, Structural)]
pub struct DirectionResult {
    /// Frames sent.
    pub sent: usize,
    /// Frames received on the other channel.
    pub received: usize,
    /// How many of those are not intact.
    pub corrupted: usize,
}

impl DirectionResult {
    /// Whether everything arrived intact.
    pub open spec fn passes(self) -> bool {
        self.received == self.sent && self.corrupted == 0
    }

    /// The result in words.
    pub open spec fn text(self) -> Seq<char> {
        text::decimal(self.received as nat) + "/"@ + text::decimal(self.sent as nat) + (
        if self.passes() {
            " frames, 0 errors"@
        } else {
            " frames, "@ + text::decimal(self.corrupted as nat) + " corrupted"@
        })
    }

    /// Whether everything arrived intact.
    pub fn is_pass(&self) -> (yes: bool)
        ensures
            yes == self.passes(),
    {
        self.received == self.sent && self.corrupted == 0
    }

    /// The result in words.
    pub fn to_string(&self) -> (s: String)
        ensures
            s@ == self.text(),
    {
        let mut s = String::new();
        text::push_decimal(&mut s, self.received as u64);
        s.append("/");
        text::push_decimal(&mut s, self.sent as u64);
        if self.is_pass() {
            s.append(" frames, 0 errors");
        } else {
            s.append(" frames, ");
            text::push_decimal(&mut s, self.corrupted as u64);
            s.append(" corrupted");
        }
        assert(s@ =~= self.text());
        s
    }
}

/// How far a direction has come.
pub struct DirectionState {
    /// The channel that sends.
    pub from: u8,
    /// The channel that receives.
    pub to: u8,
    /// How many frames are to be sent.
    pub count: usize,
    /// How many were sent.
    pub sent: usize,
    /// What has arrived.
    pub received: Seq<CanFrame>,
    /// Whether a frame was sent and what has arrived since is to be read.
    pub draining: bool,
    /// Whether nothing more is waited for.
    pub closed: bool,
}

/// What a direction needs next.
#[derive(Debug)]
pub enum DirectionStep {
    /// Transmit this frame on this channel; conclude with [`Direction::transmitted`].
    Transmit {
        /// The channel.
        channel: u8,
        /// The frame.
        frame: CanFrame,
    },
    /// Read what has arrived so far; conclude with [`Direction::drained`]. The adapter
    /// buffers, so this does not have to keep up frame for frame.
    Drain {
        /// How long to wait.
        timeout_ms: u32,
    },
    /// Read a straggler; conclude with [`Direction::collected`], or with
    /// [`Direction::expired`] once the time for stragglers is up.
    Collect {
        /// How long to wait.
        timeout_ms: u32,
    },
    /// Nothing: the direction is finished.
    Finished(DirectionResult),
}

impl DirectionState {
    /// The result as it stands.
    pub open spec fn result(self) -> DirectionResult {
        DirectionResult {
            sent: self.sent,
            received: self.received.len() as usize,
            corrupted: corrupted_in(self.received, self.count) as usize,
        }
    }

    /// What is needed next.
    pub open spec fn next(self) -> DirectionStep {
        if self.draining {
            DirectionStep::Drain { timeout_ms: DRAIN_MS }
        } else if self.sent < self.count {
            DirectionStep::Transmit { channel: self.from, frame: test_frame(self.sent) }
        } else if !self.closed && self.received.len() < self.sent {
            DirectionStep::Collect { timeout_ms: COLLECT_MS }
        } else {
            DirectionStep::Finished(self.result())
        }
    }

    /// The same with what arrived in `chunk` on the receiving channel.
    pub open spec fn with_chunk(self, chunk: RxChunk) -> Self {
        DirectionState {
            received: self.received + receive::on_channel(chunk.frames@, self.to),
            ..self
        }
    }
}

/// One direction of the self test.
#[derive(Debug)]
pub struct Direction {
    from: u8,
    to: u8,
    count: usize,
    sent: usize,
    received: Vec<CanFrame>,
    draining: bool,
    closed: bool,
}

impl View for Direction {
    type V = DirectionState;

    closed spec fn view(&self) -> DirectionState {
        DirectionState {
            from: self.from,
            to: self.to,
            count: self.count,
            sent: self.sent,
            received: self.received@,
            draining: self.draining,
            closed: self.closed,
        }
    }
}

impl Direction {
    /// A direction that has sent nothing yet.
    pub fn new(from: u8, to: u8, count: usize) -> (d: Self)
        ensures
            d@ == (DirectionState {
                from,
                to,
                count,
                sent: 0,
                received: Seq::empty(),
                draining: false,
                closed: false,
            }),
    {
        let d = Direction {
            from,
            to,
            count,
            sent: 0,
            received: Vec::new(),
            draining: false,
            closed: false,
        };
        assert(d@.received =~= Seq::empty());
        d
    }

    /// What is needed next.
    pub fn step(&self) -> (step: DirectionStep)
        ensures
            step == self@.next(),
    {
        if self.draining {
            DirectionStep::Drain { timeout_ms: DRAIN_MS }
        } else if self.sent < self.count {
            DirectionStep::Transmit { channel: self.from, frame: frame_for(self.sent) }
        } else if !self.closed && self.received.len() < self.sent {
            DirectionStep::Collect { timeout_ms: COLLECT_MS }
        } else {
            DirectionStep::Finished(
                DirectionResult {
                    sent: self.sent,
                    received: self.received.len(),
                    corrupted: count_corrupted(self.received.as_slice(), self.count),
                },
            )
        }
    }

    /// Conclude a transmission. A frame that the adapter acknowledged counts as sent,
    /// whatever the acknowledgement says.
    pub fn transmitted(&mut self, result: Result<TxAck, Error>) -> (r: Result<(), Error>)
        requires
            old(self)@.sent < usize::MAX,
        ensures
            match result {
                Ok(_) => {
                    &&& r is Ok
                    &&& final(self)@ == (DirectionState {
                        sent: (old(self)@.sent + 1) as usize,
                        draining: true,
                        ..old(self)@
                    })
                },
                Err(e) => r == Err::<(), Error>(e) && final(self)@ == old(self)@,
            },
    {
        match result {
            Ok(_) => {
                self.sent += 1;
                self.draining = true;
                Ok(())
            },
            Err(e) => Err(e),
        }
    }

    /// Conclude a read between two transmissions. It may well bring nothing.
    pub fn drained(&mut self, received: Result<RxChunk, Error>)
        ensures
            final(self)@ == (match received {
                Ok(chunk) => DirectionState { draining: false, ..old(self)@.with_chunk(chunk) },
                Err(_) => DirectionState { draining: false, ..old(self)@ },
            }),
    {
        match received {
            Ok(chunk) => {
                self.take_chunk(&chunk);
            },
            Err(_) => {},
        }
        self.draining = false;
    }

    /// Conclude a read for stragglers: once one brings nothing, none is waited for any
    /// more.
    pub fn collected(&mut self, received: Result<RxChunk, Error>) -> (r: Result<(), Error>)
        ensures
            match received {
                Ok(chunk) => r is Ok && final(self)@ == old(self)@.with_chunk(chunk),
                Err(Error::Timeout { .. }) => r is Ok && final(self)@ == (DirectionState {
                    closed: true,
                    ..old(self)@
                }),
                Err(e) => r == Err::<(), Error>(e) && final(self)@ == old(self)@,
            },
    {
        match received {
            Ok(chunk) => {
                self.take_chunk(&chunk);
                Ok(())
            },
            Err(Error::Timeout { .. }) => {
                self.closed = true;
                Ok(())
            },
            Err(e) => Err(e),
        }
    }

    /// The time for stragglers is up.
    pub fn expired(&mut self)
        ensures
            final(self)@ == (DirectionState { closed: true, ..old(self)@ }),
    {
        self.closed = true;
    }

    fn take_chunk(&mut self, chunk: &RxChunk)
        ensures
            final(self)@ == old(self)@.with_chunk(*chunk),
    {
        let mut frames: Vec<CanFrame> = chunk.frames_on(self.to);
        self.received.append(&mut frames);
        assert(self@.received =~= old(self)@.with_chunk(*chunk).received);
    }

    /// What is printed before the direction runs.
    pub fn label(&self) -> (s: String)
        ensures
            s@ == direction_label(self@.from, self@.to),
    {
        let mut s = String::new();
        s.append("  can");
        text::push_decimal(&mut s, self.from as u64);
        s.append(" -> can");
        text::push_decimal(&mut s, self.to as u64);
        s.append("     ");
        assert(s@ =~= direction_label(self@.from, self@.to));
        s
    }
}

/// What is printed before a direction runs.
pub open spec fn direction_label(from: u8, to: u8) -> Seq<char> {
    "  can"@ + text::decimal(from as nat) + " -> can"@ + text::decimal(to as nat) + "     "@
}

// ───────────────────────────── Verdict ─────────────────────────────

/// What is printed before the adapter is opened.
pub fn introduction() -> (s: &'static str)
    ensures
        s@
            == "USBCAN-(2)E-U self test\n\nThis transmits on one channel and receives on the other, so wire the\ntwo channels together first: CANH to CANH, CANL to CANL, with 120 ohm\ntermination across each end.\n\n"@,
{
    "USBCAN-(2)E-U self test\n\nThis transmits on one channel and receives on the other, so wire the\ntwo channels together first: CANH to CANH, CANL to CANL, with 120 ohm\ntermination across each end.\n\n"
}

/// The line that names the adapter, and the complaint if it has one channel only.
pub open spec fn adapter_text(index: usize, pid: u16) -> Seq<char> {
    "  adapter          "@ + device::model_name(pid) + " at index "@ + text::decimal(index as nat)
        + (if device::channels_of(pid) < 2 {
        "\n  FAIL             this model has only one channel\n"@
    } else {
        "\n"@
    })
}

/// The line that names the adapter, and the complaint if it has one channel only.
pub fn describe_adapter(index: usize, adapter: &Device) -> (s: String)
    ensures
        s@ == adapter_text(index, adapter@.pid),
{
    let mut s = String::new();
    s.append("  adapter          ");
    s.append(adapter.model());
    s.append(" at index ");
    text::push_decimal(&mut s, index as u64);
    if adapter.channel_count() < 2 {
        s.append("\n  FAIL             this model has only one channel\n");
    } else {
        s.append("\n");
    }
    assert(s@ =~= adapter_text(index, adapter@.pid));
    s
}

/// Whether the adapter has the two channels that the self test needs.
pub fn check_adapter(adapter: &Device) -> (r: Result<(), Error>)
    ensures
        if device::channels_of(adapter@.pid) < 2 {
            error::init_error(r, "the self test needs a two-channel adapter"@)
        } else {
            r is Ok
        },
{
    if adapter.channel_count() < 2 {
        return Err(init_failure("the self test needs a two-channel adapter"));
    }
    Ok(())
}

/// The line that says that both channels run.
pub open spec fn started_text(bitrate: Bitrate) -> Seq<char> {
    "  both channels    started at "@ + bitrate.text() + "\n\n"@
}

/// The line that says that both channels run.
pub fn describe_start(bitrate: Bitrate) -> (s: String)
    ensures
        s@ == started_text(bitrate),
{
    let mut s = String::new();
    s.append("  both channels    started at ");
    s.append(bitrate.to_string().as_str());
    s.append("\n\n");
    assert(s@ =~= started_text(bitrate));
    s
}

/// What is printed at the end.
pub open spec fn verdict_text(passed: bool) -> Seq<char> {
    if passed {
        "\nPASS\n"@
    } else {
        "\nFAIL\n\nIf nothing arrived at all, the two channels are probably not wired\ntogether, or termination is missing. If some frames arrived but were\ncorrupted, suspect the bit timing table in src/protocol.rs.\n"@
    }
}

/// What the self test comes to, given how the two directions went.
pub fn conclude(forward: &DirectionResult, reverse: &DirectionResult) -> (r: (
    &'static str,
    Result<(), Error>,
))
    ensures
        r.0@ == verdict_text(forward.passes() && reverse.passes()),
        if forward.passes() && reverse.passes() {
            r.1 is Ok
        } else {
            error::init_error(r.1, "self test failed"@)
        },
{
    if forward.is_pass() && reverse.is_pass() {
        ("\nPASS\n", Ok(()))
    } else {
        (
            "\nFAIL\n\nIf nothing arrived at all, the two channels are probably not wired\ntogether, or termination is missing. If some frames arrived but were\ncorrupted, suspect the bit timing table in src/protocol.rs.\n",
            Err(init_failure("self test failed")),
        )
    }
}

// ───────────────────────────── Laws ─────────────────────────────

/// Every frame the test sends validates, on its own and whatever else arrives.
pub proof fn law_sent_frame_is_intact(index: usize, count: usize)
    requires
        index < count,
    ensures
        intact(test_frame(index), count),
{
    let word = index_word(index);
    let frame = test_frame(index);
    bytes::law_le32_roundtrip(word);
    assert(frame.payload_bytes() =~= bytes::le32(word));
}

/// A frame that carries the payload or identifier of another index does not validate.
pub proof fn law_mixed_up_frame_is_corrupted(frame: CanFrame, index: u32, count: usize)
    requires
        frame.payload_bytes() == bytes::le32(index),
        frame.id != test_id(index as usize) || index >= count,
    ensures
        !intact(frame, count),
{
    bytes::law_le32_roundtrip(index);
}

/// A test frame still validates after it went over the wire from any channel.
pub proof fn law_test_frame_survives_the_wire(index: usize, count: usize, channel: u8)
    requires
        index < count,
        channel < 2,
    ensures
        intact(
            CanFrame::from_record(transmit::outgoing(test_frame(index), channel).record()),
            count,
        ),
{
    let sent = transmit::outgoing(test_frame(index), channel);
    protocol::frame::law_frame_roundtrip(sent);
    law_sent_frame_is_intact(index, count);
    assert(sent.payload_bytes() =~= test_frame(index).payload_bytes());
}

/// If only intact frames arrive and as many as were sent, the direction passes.
pub proof fn law_intact_frames_pass(s: DirectionState)
    requires
        s.received.len() == s.sent,
        forall|i: int| 0 <= i < s.received.len() ==> intact(#[trigger] s.received[i], s.count),
    ensures
        s.result().passes(),
{
    lemma_none_corrupted(s.received, s.count);
}

proof fn lemma_none_corrupted(frames: Seq<CanFrame>, count: usize)
    requires
        forall|i: int| 0 <= i < frames.len() ==> intact(#[trigger] frames[i], count),
    ensures
        corrupted_in(frames, count) == 0,
    decreases frames.len(),
{
    reveal(Seq::filter);
    if frames.len() > 0 {
        assert forall|i: int| 0 <= i < frames.len() - 1 implies intact(
            #[trigger] frames.drop_last()[i],
            count,
        ) by {
            assert(frames.drop_last()[i] == frames[i]);
        }
        assert(intact(frames.last(), count));
        lemma_none_corrupted(frames.drop_last(), count);
    }
}

/// A corrupted frame makes the direction fail.
pub proof fn law_corrupted_frame_fails(s: DirectionState, i: int)
    requires
        0 <= i < s.received.len(),
        s.received.len() <= usize::MAX,
        !intact(s.received[i], s.count),
    ensures
        !s.result().passes(),
{
    let bad = |f: CanFrame| !intact(f, s.count);
    s.received.lemma_filter_len(bad);
    s.received.lemma_filter_contains(bad, i);
    assert(s.received.filter(bad).contains(s.received[i]));
}

/// Only frames of the receiving channel count as received.
pub proof fn law_only_receiving_channel_counts(s: DirectionState, chunk: RxChunk, i: int)
    requires
        forall|j: int| 0 <= j < s.received.len() ==> #[trigger] s.received[j].channel == s.to,
        0 <= i < s.with_chunk(chunk).received.len(),
    ensures
        s.with_chunk(chunk).received[i].channel == s.to,
{
    if i >= s.received.len() {
        chunk.frames@.lemma_filter_pred(|f: CanFrame| f.channel == s.to, i - s.received.len());
    }
}

/// A direction sends each test frame once, in order: what it transmits next is the
/// frame after those that were sent, and it collects stragglers only once all were.
pub proof fn law_frames_are_sent_in_order(s: DirectionState)
    ensures
        s.next() matches DirectionStep::Transmit { channel, frame } ==> {
            &&& s.sent < s.count
            &&& channel == s.from
            &&& frame == test_frame(s.sent)
        },
        s.next() is Collect || s.next() is Finished ==> s.sent >= s.count,
{
}

/// Self-test frame `index` is a standard data frame of four bytes: the low 32 bits of
/// the index, least significant byte first. Its identifier is 0x100 and the low 8 bits
/// of the index.
#[verifier::spinoff_prover]
pub proof fn law_test_frame_carries_its_index(index: usize)
    ensures
        ({
            let frame = test_frame(index);
            let p = frame.payload_bytes();
            &&& !frame.extended && !frame.remote
            &&& frame.dlc == 4 && p.len() == 4
            &&& (p[0] + 0x100 * p[1] + 0x1_0000 * p[2] + 0x100_0000 * p[3] - index) % 0x1_0000_0000
                == 0
            &&& frame.id == 0x100 + index % 0x100
        }),
{
    let word = index_word(index);
    let frame = test_frame(index);
    let high = index as int / 0x1_0000_0000;
    assert(index == 0x1_0000_0000 * high + word);
    assert(word % 0x100 == index % 0x100);
    bytes::law_le32_digits(word);
    assert(frame.payload_bytes() =~= bytes::le32(word));
}

/// What is intact: a standard data frame of four bytes that name an index below the
/// count, with 0x100 and the low 8 bits of that index as its identifier; and nothing
/// else.
pub proof fn law_what_is_intact(frame: CanFrame, count: usize)
    ensures
        ({
            let p = frame.payload_bytes();
            let index = p[0] + 0x100 * p[1] + 0x1_0000 * p[2] + 0x100_0000 * p[3];
            intact(frame, count) <==> {
                &&& frame.dlc == 4
                &&& !frame.extended && !frame.remote
                &&& index < count
                &&& frame.id == 0x100 + index % 0x100
            }
        }),
{
}

/// A frame more is one more corrupted frame exactly if it is not intact.
pub proof fn law_corrupted_frames_are_counted(frames: Seq<CanFrame>, frame: CanFrame, count: usize)
    ensures
        corrupted_in(Seq::<CanFrame>::empty(), count) == 0,
        corrupted_in(frames.push(frame), count) == corrupted_in(frames, count) + (if intact(
            frame,
            count,
        ) {
            0nat
        } else {
            1
        }),
{
    reveal(Seq::filter);
    assert(frames.push(frame).drop_last() =~= frames);
}

/// A direction passes only if as many frames arrived as were sent and none of them is
/// corrupted: one that lost a frame, got one too many or got a corrupted one fails.
pub proof fn law_pass_means_nothing_lost(result: DirectionResult)
    ensures
        result.received < result.sent ==> !result.passes(),
        result.received > result.sent ==> !result.passes(),
        result.corrupted > 0 ==> !result.passes(),
        result.received == result.sent && result.corrupted == 0 ==> result.passes(),
{
}

/// The result names what arrived, what was sent and, unless all is well, what was
/// corrupted.
pub proof fn law_result_text(result: DirectionResult)
    ensures
        exists|r: Seq<char>, s: Seq<char>, c: Seq<char>| #[trigger]
            text::reads(r, result.received as int) && #[trigger] text::reads(s, result.sent as int)
                && #[trigger] text::reads(c, result.corrupted as int) && result.text() == r + "/"@
                + s + (if result.received == result.sent && result.corrupted == 0 {
                " frames, 0 errors"@
            } else {
                " frames, "@ + c + " corrupted"@
            }),
{
    text::law_written_numbers_read(result.received as int, 0, true);
    text::law_written_numbers_read(result.sent as int, 0, true);
    text::law_written_numbers_read(result.corrupted as int, 0, true);
    let r = text::decimal(result.received as nat);
    let s = text::decimal(result.sent as nat);
    let c = text::decimal(result.corrupted as nat);
    assert(text::reads(r, result.received as int) && text::reads(s, result.sent as int)
        && text::reads(c, result.corrupted as int));
}

/// The result of a direction counts what was sent, what arrived, and what of that is
/// not intact.
pub proof fn law_result_counts(s: DirectionState)
    requires
        s.received.len() <= usize::MAX,
    ensures
        s.result().sent == s.sent,
        s.result().received == s.received.len(),
        s.result().corrupted == corrupted_in(s.received, s.count),
{
    s.received.lemma_filter_len(|f: CanFrame| !intact(f, s.count));
}

/// What a direction does next. After each frame it reads for 5 ms; then it transmits
/// the next one on the sending channel, until all are sent. Then it reads for 100 ms
/// at a time, as long as frames are missing and time is left. Then it is finished.
pub proof fn law_direction_steps(s: DirectionState)
    ensures
        s.draining ==> s.next() == (DirectionStep::Drain { timeout_ms: 5 }),
        !s.draining && s.sent < s.count ==> s.next() == (DirectionStep::Transmit {
            channel: s.from,
            frame: test_frame(s.sent),
        }),
        !s.draining && s.sent >= s.count && !s.closed && s.received.len() < s.sent ==> s.next()
            == (DirectionStep::Collect { timeout_ms: 100 }),
        !s.draining && s.sent >= s.count && (s.closed || s.received.len() >= s.sent) ==> s.next()
            == DirectionStep::Finished(s.result()),
{
}

/// A batch adds its frames on the receiving channel, in order, behind what has arrived;
/// nothing else changes.
pub proof fn law_batch_is_received(s: DirectionState, chunk: RxChunk)
    ensures
        s.with_chunk(chunk).received == s.received + receive::on_channel(chunk.frames@, s.to),
        s.with_chunk(chunk) == (DirectionState {
            received: s.with_chunk(chunk).received,
            ..s
        }),
{
}

/// What is printed names the channels, the adapter and the rate; an adapter with one
/// channel is a failure; and the verdict is a pass exactly if both directions passed.
pub proof fn law_selftest_texts(
    from: u8,
    to: u8,
    index: usize,
    pid: u16,
    bitrate: Bitrate,
    passed: bool,
)
    ensures
        exists|f: Seq<char>, t: Seq<char>| #[trigger]
            text::reads(f, from as int) && #[trigger] text::reads(t, to as int) && direction_label(
                from,
                to,
            ) == "  can"@ + f + " -> can"@ + t + "     "@,
        exists|i: Seq<char>| #[trigger]
            text::reads(i, index as int) && adapter_text(index, pid) == "  adapter          "@
                + device::model_name(pid) + " at index "@ + i + (if pid == 0x1261 {
                "\n"@
            } else {
                "\n  FAIL             this model has only one channel\n"@
            }),
        started_text(bitrate) == "  both channels    started at "@ + bitrate.text() + "\n\n"@,
        verdict_text(passed).take(5) == (if passed {
            seq!['\n', 'P', 'A', 'S', 'S']
        } else {
            seq!['\n', 'F', 'A', 'I', 'L']
        }),
{
    text::law_written_numbers_read(from as int, 0, true);
    text::law_written_numbers_read(to as int, 0, true);
    text::law_written_numbers_read(index as int, 0, true);
    reveal_strlit("\nPASS\n");
    reveal_strlit(
        "\nFAIL\n\nIf nothing arrived at all, the two channels are probably not wired\ntogether, or termination is missing. If some frames arrived but were\ncorrupted, suspect the bit timing table in src/protocol.rs.\n",
    );
    if passed {
        assert(verdict_text(passed).take(5) =~= seq!['\n', 'P', 'A', 'S', 'S']);
    } else {
        assert(verdict_text(passed).take(5) =~= seq!['\n', 'F', 'A', 'I', 'L']);
    }
}

/// Stragglers are waited for half a second in all, which is five reads.
pub proof fn law_time_for_stragglers()
    ensures
        COLLECT_BUDGET_MS == 500,
        COLLECT_BUDGET_MS == 5 * COLLECT_MS,
{
}

} // verus!
