//! What the `embedded-can` traits need of a frame and of a channel.
//!
//! Lets code written against the generic traits drive this adapter without knowing
//! about it. Identifiers are plain numbers here: a [`FrameId`] holds the raw value of
//! an `embedded_can::Id`.

use std::collections::VecDeque;

use vstd::prelude::*;

use crate::device;
use crate::device::{Device, DeviceState, ReceiveExchange, TransmitExchange};
use crate::error::Error;
use crate::protocol::receive;
use crate::protocol::{CanFrame, RxChunk, EP_DATA_IN};
use crate::transfer::UsbRead;

verus! {

// ───────────────────────────── Frames ─────────────────────────────

/// The raw value of a CAN identifier.
#[derive(Debug, Clone, Copy, PartialEq, Eq, Structural)]
pub enum FrameId {
    /// 11-bit identifier.
    Standard(u16),
    /// 29-bit identifier.
    Extended(u32),
}

impl FrameId {
    /// Whether the value is in the range of its format.
    pub open spec fn valid(self) -> bool {
        match self {
            FrameId::Standard(raw) => raw <= 0x7ff,
            FrameId::Extended(raw) => raw <= 0x1fff_ffff,
        }
    }

    /// The identifier as it stands in a [`CanFrame`]: its value, and whether it is an
    /// extended one.
    pub open spec fn parts(self) -> (u32, bool) {
        match self {
            FrameId::Standard(raw) => (raw as u32, false),
            FrameId::Extended(raw) => (raw, true),
        }
    }

    /// A standard identifier, if `raw` is in range.
    pub fn standard(raw: u16) -> (id: Option<Self>)
        ensures
            id == (if raw <= 0x7ff { Some(FrameId::Standard(raw)) } else { None }),
    {
        match standard_id(raw) {
            Some(raw) => Some(FrameId::Standard(raw)),
            None => None,
        }
    }

    /// An extended identifier, if `raw` is in range.
    pub fn extended(raw: u32) -> (id: Option<Self>)
        ensures
            id == (if raw <= 0x1fff_ffff { Some(FrameId::Extended(raw)) } else { None }),
    {
        match extended_id(raw) {
            Some(raw) => Some(FrameId::Extended(raw)),
            None => None,
        }
    }
}

/// `embedded_can::StandardId::new`: gives an identifier with the raw value `raw`
/// exactly if that is at most `0x7ff`.
#[verifier::external_body]
fn standard_id(raw: u16) -> (id: Option<u16>)
    ensures
        id == (if raw <= 0x7ff { Some(raw) } else { None }),
{
    match embedded_can::StandardId::new(raw) {
        Some(id) => Some(id.as_raw()),
        None => None,
    }
}

/// `embedded_can::ExtendedId::new`: gives an identifier with the raw value `raw`
/// exactly if that is at most `0x1fff_ffff`.
#[verifier::external_body]
fn extended_id(raw: u32) -> (id: Option<u32>)
    ensures
        id == (if raw <= 0x1fff_ffff { Some(raw) } else { None }),
{
    match embedded_can::ExtendedId::new(raw) {
        Some(id) => Some(id.as_raw()),
        None => None,
    }
}

/// The value of an identifier, and whether it is an extended one.
pub fn split_id(id: FrameId) -> (parts: (u32, bool))
    ensures
        parts == id.parts(),
{
    match id {
        FrameId::Standard(raw) => (raw as u32, false),
        FrameId::Extended(raw) => (raw, true),
    }
}

impl CanFrame {
    /// The identifier of the frame. One that is out of range for its format reads as
    /// zero; of a standard identifier the low 16 bits count.
    pub open spec fn frame_id(self) -> FrameId {
        if self.extended {
            FrameId::Extended(if self.id <= 0x1fff_ffff { self.id } else { 0 })
        } else {
            let raw = (self.id % 0x1_0000) as u16;
            FrameId::Standard(if raw <= 0x7ff { raw } else { 0 })
        }
    }

    /// A data frame with this identifier; `None` if `data` is longer than 8 bytes.
    pub fn new_with_id(id: FrameId, data: &[u8]) -> (frame: Option<Self>)
        ensures
            frame == (if data@.len() <= 8 {
                Some(CanFrame::of_data(id.parts().0, id.parts().1, data@))
            } else {
                None
            }),
    {
        if data.len() > 8 {
            return None;
        }
        let (raw, extended) = split_id(id);
        Some(CanFrame::new(raw, extended, data))
    }

    /// A remote frame with this identifier; `None` if `dlc` is more than 8.
    pub fn new_remote_with_id(id: FrameId, dlc: usize) -> (frame: Option<Self>)
        ensures
            frame == (if dlc <= 8 {
                Some(CanFrame::of_remote(id.parts().0, id.parts().1, dlc as u8))
            } else {
                None
            }),
    {
        if dlc > 8 {
            return None;
        }
        let (raw, extended) = split_id(id);
        Some(CanFrame::new_remote(raw, extended, dlc as u8))
    }

    /// Whether the frame has an extended identifier.
    pub fn is_extended(&self) -> (yes: bool)
        ensures
            yes == self.extended,
    {
        self.extended
    }

    /// Whether the frame is a remote frame.
    pub fn is_remote_frame(&self) -> (yes: bool)
        ensures
            yes == self.remote,
    {
        self.remote
    }

    /// The identifier of the frame. Of a standard one the low 16 bits count; what is
    /// then still out of range for its format reads as zero.
    pub fn id(&self) -> (id: FrameId)
        ensures
            id == self.frame_id(),
    {
        if self.extended {
            match extended_id(self.id) {
                Some(raw) => FrameId::Extended(raw),
                None => FrameId::Extended(0),
            }
        } else {
            match standard_id((self.id % 0x1_0000) as u16) {
                Some(raw) => FrameId::Standard(raw),
                None => FrameId::Standard(0),
            }
        }
    }

    /// The data length code.
    pub fn dlc(&self) -> (dlc: usize)
        ensures
            dlc == self.dlc,
    {
        self.dlc as usize
    }

    /// The payload.
    pub fn data(&self) -> (data: &[u8])
        ensures
            data@ == self.payload_bytes(),
    {
        self.payload()
    }
}

// ───────────────────────────── Channel ─────────────────────────────

/// What a [`CanChannel`] knows.
pub struct ChannelState {
    /// The adapter.
    pub device: DeviceState,
    /// The channel.
    pub channel: u8,
    /// Frames that arrived and were not handed out yet.
    pub buffered: Seq<CanFrame>,
    /// How long one read waits, in milliseconds.
    pub poll_timeout_ms: u32,
}

/// The frames that wait to be handed out once `chunk` has arrived. Those of the other
/// channel are discarded.
pub open spec fn waiting(s: ChannelState, chunk: RxChunk) -> Seq<CanFrame> {
    s.buffered + receive::on_channel(chunk.frames@, s.channel)
}

/// One CAN channel of a [`Device`].
///
/// The device delivers frames for both channels in one stream, so this buffers
/// what it reads and hands out one frame at a time. Frames belonging to the
/// other channel are discarded.
#[derive(Debug)]
pub struct CanChannel<'a> {
    device: &'a Device,
    channel: u8,
    buffered: VecDeque<CanFrame>,
    poll_timeout_ms: u32,
}

/// What a request for a frame comes to.
#[derive(Debug)]
pub enum Poll {
    /// This frame, which had arrived before.
    Frame(CanFrame),
    /// A read of the receive stream; conclude with [`CanChannel::polled`].
    Read(ReceiveExchange),
}

impl<'a> View for CanChannel<'a> {
    type V = ChannelState;

    closed spec fn view(&self) -> ChannelState {
        ChannelState {
            device: self.device@,
            channel: self.channel,
            buffered: self.buffered@,
            poll_timeout_ms: self.poll_timeout_ms,
        }
    }
}

impl<'a> CanChannel<'a> {
    /// Wrap `channel` of `device`.
    pub fn new(device: &'a Device, channel: u8) -> (can: Self)
        ensures
            can@ == (ChannelState {
                device: device@,
                channel,
                buffered: Seq::empty(),
                poll_timeout_ms: 1000,
            }),
    {
        let can = CanChannel { device, channel, buffered: VecDeque::new(), poll_timeout_ms: 1000 };
        assert(can@.buffered =~= Seq::empty());
        can
    }

    /// Set how long a single `receive` waits before returning
    /// [`Error::Timeout`]. Defaults to 1000 ms.
    pub fn set_poll_timeout_ms(&mut self, ms: u32)
        ensures
            final(self)@ == (ChannelState { poll_timeout_ms: ms, ..old(self)@ }),
    {
        self.poll_timeout_ms = ms;
    }

    /// The channel index this wraps.
    pub fn channel(&self) -> (channel: u8)
        ensures
            channel == self@.channel,
    {
        self.channel
    }

    /// Transmit one frame. The frame is sent once the exchange has brought an
    /// acknowledgement.
    pub fn transmit(&self, frame: &CanFrame) -> (r: Result<TransmitExchange, Error>)
        ensures
            if self@.channel < device::channels_of(self@.device.pid) {
                r matches Ok(x) && x.sends(
                    seq![*frame],
                    self@.channel,
                    self@.device.ctrl_timeout_ms,
                )
            } else {
                r == Err::<TransmitExchange, Error>(Error::InvalidChannel(self@.channel))
            },
    {
        let frames: [CanFrame; 1] = [*frame];
        assert(frames@ =~= seq![*frame]);
        self.device.transmit(self.channel, &frames)
    }

    /// Ask for the next frame: one that has arrived before, or a read of the receive
    /// stream.
    pub fn receive(&mut self) -> (poll: Poll)
        ensures
            if old(self)@.buffered.len() > 0 {
                &&& poll == Poll::Frame(old(self)@.buffered.first())
                &&& final(self)@ == (ChannelState {
                    buffered: old(self)@.buffered.drop_first(),
                    ..old(self)@
                })
            } else {
                &&& poll matches Poll::Read(x)
                &&& x.read == (UsbRead {
                    endpoint: EP_DATA_IN,
                    room: device::RX_BUFFER_LEN,
                    timeout_ms: old(self)@.poll_timeout_ms,
                    watchdog: false,
                })
                &&& final(self)@ == old(self)@
            },
    {
        match self.buffered.pop_front() {
            Some(frame) => {
                assert(self@.buffered =~= old(self)@.buffered.drop_first());
                Poll::Frame(frame)
            },
            None => Poll::Read(self.device.receive(self.poll_timeout_ms)),
        }
    }

    /// Conclude a read of the receive stream: keep what arrived on this channel and
    /// hand out the first frame.
    pub fn polled(&mut self, received: Result<RxChunk, Error>) -> (r: Result<CanFrame, Error>)
        ensures
            match received {
                Ok(chunk) => {
                    let all = waiting(old(self)@, chunk);
                    if all.len() > 0 {
                        &&& r == Ok::<CanFrame, Error>(all.first())
                        &&& final(self)@ == (ChannelState {
                            buffered: all.drop_first(),
                            ..old(self)@
                        })
                    } else {
                        &&& r == Err::<CanFrame, Error>(
                            Error::Timeout { ms: old(self)@.poll_timeout_ms },
                        )
                        &&& final(self)@ == old(self)@
                    }
                },
                Err(e) => r == Err::<CanFrame, Error>(e) && final(self)@ == old(self)@,
            },
    {
        let chunk: RxChunk = match received {
            Ok(chunk) => chunk,
            Err(e) => return Err(e),
        };
        let frames: Vec<CanFrame> = chunk.frames_on(self.channel);
        let mut i: usize = 0;
        assert(self@.buffered =~= old(self)@.buffered + frames@.take(0));
        while i < frames.len()
            invariant
                i <= frames@.len(),
                self@ == (ChannelState {
                    buffered: old(self)@.buffered + frames@.take(i as int),
                    ..old(self)@
                }),
            decreases frames@.len() - i,
        {
            self.buffered.push_back(frames[i]);
            i += 1;
            assert(self@.buffered =~= old(self)@.buffered + frames@.take(i as int));
        }
        assert(frames@.take(i as int) =~= frames@);
        let ghost all = waiting(old(self)@, chunk);
        assert(self@.buffered == all);
        match self.buffered.pop_front() {
            Some(frame) => {
                assert(self@.buffered =~= all.drop_first());
                Ok(frame)
            },
            None => {
                assert(self@.buffered =~= old(self)@.buffered);
                Err(Error::Timeout { ms: self.poll_timeout_ms })
            },
        }
    }
}

// ───────────────────────────── Laws ─────────────────────────────

/// A frame keeps the identifier and the payload that it was made with.
pub proof fn law_data_frame_roundtrip(id: FrameId, data: Seq<u8>)
    requires
        id.valid(),
        data.len() <= 8,
    ensures
        ({
            let frame = CanFrame::of_data(id.parts().0, id.parts().1, data);
            &&& frame.frame_id() == id
            &&& frame.extended == (id is Extended)
            &&& !frame.remote
            &&& frame.dlc == data.len()
            &&& frame.payload_bytes() == data
        }),
{
    let frame = CanFrame::of_data(id.parts().0, id.parts().1, data);
    assert(frame.payload_bytes() =~= data);
}

/// A remote frame keeps the identifier and the length that it was made with.
pub proof fn law_remote_frame_roundtrip(id: FrameId, dlc: u8)
    requires
        id.valid(),
        dlc <= 8,
    ensures
        ({
            let frame = CanFrame::of_remote(id.parts().0, id.parts().1, dlc);
            &&& frame.frame_id() == id
            &&& frame.remote
            &&& frame.dlc == dlc
        }),
{
}

/// Whatever a frame holds, its identifier is one that the format allows.
pub proof fn law_frame_id_is_valid(frame: CanFrame)
    ensures
        frame.frame_id().valid(),
{
}

/// Frames are handed out in the order in which they arrived, none lost and none
/// twice: what was waiting and what comes out of two batches does not depend on when
/// they are asked for.
pub proof fn law_frames_come_out_in_order(s: ChannelState, a: RxChunk, b: RxChunk)
    requires
        waiting(s, a).len() > 0,
    ensures
        ({
            let first = waiting(s, a).first();
            let t = ChannelState { buffered: waiting(s, a).drop_first(), ..s };
            seq![first] + waiting(t, b) == s.buffered + receive::on_channel(a.frames@, s.channel)
                + receive::on_channel(b.frames@, s.channel)
        }),
{
    let first = waiting(s, a).first();
    let t = ChannelState { buffered: waiting(s, a).drop_first(), ..s };
    assert(seq![first] + waiting(t, b) =~= s.buffered + receive::on_channel(a.frames@, s.channel)
        + receive::on_channel(b.frames@, s.channel));
}

/// Only frames of the channel itself wait to be handed out.
pub proof fn law_other_channel_is_discarded(s: ChannelState, chunk: RxChunk, i: int)
    requires
        forall|j: int| 0 <= j < s.buffered.len() ==> #[trigger] s.buffered[j].channel == s.channel,
        0 <= i < waiting(s, chunk).len(),
    ensures
        waiting(s, chunk)[i].channel == s.channel,
{
    if i >= s.buffered.len() {
        chunk.frames@.lemma_filter_pred(
            |f: CanFrame| f.channel == s.channel,
            i - s.buffered.len(),
        );
    }
}

/// What an identifier stands for in a frame.
pub proof fn law_identifier_parts(raw: u16, long: u32)
    ensures
        FrameId::Standard(raw).parts().0 == raw && !FrameId::Standard(raw).parts().1,
        FrameId::Extended(long).parts().0 == long && FrameId::Extended(long).parts().1,
        FrameId::Standard(raw).valid() <==> raw < 0x800,
        FrameId::Extended(long).valid() <==> long < 0x2000_0000,
{
}

/// An identifier in range is what the frame carries; one out of range reads as zero,
/// where of a standard one the low 16 bits count.
pub proof fn law_identifier_of_frame(frame: CanFrame)
    ensures
        frame.extended && frame.id < 0x2000_0000 ==> frame.frame_id() == FrameId::Extended(frame.id),
        frame.extended && frame.id >= 0x2000_0000 ==> frame.frame_id() == FrameId::Extended(0),
        !frame.extended && frame.id < 0x800 ==> (frame.frame_id() matches FrameId::Standard(raw)
            && raw == frame.id),
        !frame.extended && 0x800 <= frame.id < 0x1_0000 ==> frame.frame_id() == FrameId::Standard(0),
        !frame.extended ==> frame.frame_id() == (CanFrame { id: frame.id % 0x1_0000, ..frame }).frame_id(),
{
}

/// What waits once a batch has arrived: what waited before, and then the frames of the
/// batch that are on the channel, in order.
pub proof fn law_batch_joins_the_queue(s: ChannelState, chunk: RxChunk)
    ensures
        waiting(s, chunk) == s.buffered + receive::on_channel(chunk.frames@, s.channel),
        waiting(s, chunk).len() >= s.buffered.len(),
{
}

} // verus!
