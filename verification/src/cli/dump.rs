//! Printing frames as they arrive.

use vstd::prelude::*;

use crate::error::Error;
use crate::notation;
use crate::protocol::receive;
use crate::protocol::{Bitrate, CanFrame, ChannelMode, RxChunk, RxStatus, RxStatusKind};
use crate::text;

verus! {

// ───────────────────────────── Text ─────────────────────────────

/// The mode that a channel is listened to in.
pub fn listen_mode(listen_only: bool) -> (mode: ChannelMode)
    ensures
        mode == (if listen_only { ChannelMode::Passive } else { ChannelMode::Normal }),
{
    if listen_only {
        ChannelMode::Passive
    } else {
        ChannelMode::Normal
    }
}

/// What is said before the first frame.
pub open spec fn listening_text(channel: u8, bitrate: Bitrate, listen_only: bool) -> Seq<char> {
    "listening on channel "@ + text::decimal(channel as nat) + " at "@ + bitrate.text() + " ("@ + (
    if listen_only {
        "listen-only"@
    } else {
        "normal"@
    }) + "); press Ctrl-C to stop"@
}

/// What is said before the first frame.
pub fn describe_listening(channel: u8, bitrate: Bitrate, listen_only: bool) -> (s: String)
    ensures
        s@ == listening_text(channel, bitrate, listen_only),
{
    let mut s = String::new();
    s.append("listening on channel ");
    text::push_decimal(&mut s, channel as u64);
    s.append(" at ");
    s.append(bitrate.to_string().as_str());
    s.append(" (");
    if listen_only {
        s.append("listen-only");
    } else {
        s.append("normal");
    }
    s.append("); press Ctrl-C to stop");
    assert(s@ =~= listening_text(channel, bitrate, listen_only));
    s
}

/// The columns of a frame, behind the time at which it arrived.
pub open spec fn frame_columns(frame: CanFrame) -> Seq<char> {
    "  can"@ + text::decimal(frame.channel as nat) + "  "@ + notation::id_column(frame) + "  ["@
        + text::decimal(frame.dlc as nat) + "] "@ + notation::data_column(frame)
}

/// The columns of a frame, behind the time at which it arrived.
pub fn describe_frame(frame: &CanFrame) -> (s: String)
    ensures
        s@ == frame_columns(*frame),
{
    let mut s = String::new();
    s.append("  can");
    text::push_decimal(&mut s, frame.channel as u64);
    s.append("  ");
    s.append(notation::format_id(frame).as_str());
    s.append("  [");
    text::push_decimal(&mut s, frame.dlc as u64);
    s.append("] ");
    s.append(notation::format_data(frame).as_str());
    assert(s@ =~= frame_columns(*frame));
    s
}

/// The name of a kind of status record.
pub open spec fn kind_name(kind: RxStatusKind) -> Seq<char> {
    match kind {
        RxStatusKind::TxAbort => "TxAbort"@,
        RxStatusKind::Overflow => "Overflow"@,
        RxStatusKind::CanError => "CanError"@,
        RxStatusKind::Status => "Status"@,
        RxStatusKind::BusErrorOrPassive => "BusErrorOrPassive"@,
        RxStatusKind::Other => "Other"@,
    }
}

/// The name of a kind of status record.
fn name_of_kind(kind: RxStatusKind) -> (name: &'static str)
    ensures
        name@ == kind_name(kind),
{
    match kind {
        RxStatusKind::TxAbort => "TxAbort",
        RxStatusKind::Overflow => "Overflow",
        RxStatusKind::CanError => "CanError",
        RxStatusKind::Status => "Status",
        RxStatusKind::BusErrorOrPassive => "BusErrorOrPassive",
        RxStatusKind::Other => "Other",
    }
}

/// The line of a status record: its kind, and its first twelve bytes.
pub open spec fn status_line(status: RxStatus) -> Seq<char> {
    "  status "@ + kind_name(status.kind) + ": "@ + text::hex_list(status.raw@.take(12), " "@)
}

/// The line of a status record: its kind, and its first twelve bytes.
pub fn describe_status(status: &RxStatus) -> (s: String)
    ensures
        s@ == status_line(*status),
{
    let mut s = String::new();
    s.append("  status ");
    s.append(name_of_kind(status.kind));
    s.append(": ");
    text::push_hex_list(&mut s, &status.raw[0..12], " ");
    assert(status.raw@.subrange(0, 12) =~= status.raw@.take(12));
    assert(s@ =~= status_line(*status));
    s
}

/// What is said after the last of `count` frames.
pub open spec fn finished_text(count: usize) -> Seq<char> {
    "\n"@ + text::decimal(count as nat) + " frame(s) received"@
}

// ───────────────────────────── Dump ─────────────────────────────

/// What a [`Dump`] knows.
pub struct DumpState {
    /// The channel that is listened to.
    pub channel: u8,
    /// Whether status records are printed.
    pub show_status: bool,
    /// After how many frames to stop.
    pub limit: Option<usize>,
    /// How many frames were printed.
    pub count: usize,
}

impl DumpState {
    /// How many frames may still be printed, if there is a limit.
    pub open spec fn room(self) -> Option<int> {
        match self.limit {
            Some(limit) => Some(
                if limit > self.count {
                    limit - self.count
                } else {
                    0
                },
            ),
            None => None,
        }
    }

    /// Whether the limit is reached with `n` more frames.
    pub open spec fn ends_with(self, n: nat) -> bool {
        self.room() matches Some(room) && n >= room
    }

    /// Which of the `frames` that arrived are printed.
    pub open spec fn printed(self, frames: Seq<CanFrame>) -> Seq<CanFrame> {
        if self.ends_with(frames.len()) {
            frames.take(self.room()->0)
        } else {
            frames
        }
    }
}

/// What is to be printed of a batch.
#[derive(Debug)]
pub struct DumpBatch {
    /// Frames, in the order of their arrival.
    pub frames: Vec<CanFrame>,
    /// Status records that follow them.
    pub status: Vec<RxStatus>,
    /// Whether the limit is reached.
    pub done: bool,
}

impl DumpBatch {
    /// Whether this is what is to be printed of `chunk`.
    pub open spec fn prints(self, s: DumpState, chunk: RxChunk) -> bool {
        let frames = receive::on_channel(chunk.frames@, s.channel);
        &&& self.frames@ == s.printed(frames)
        &&& self.done == s.ends_with(frames.len())
        &&& self.status@ == (if s.show_status && !self.done {
            chunk.status@
        } else {
            Seq::empty()
        })
    }
}

/// The frames of one channel, as they are printed and counted.
#[derive(Debug)]
pub struct Dump {
    channel: u8,
    show_status: bool,
    limit: Option<usize>,
    count: usize,
}

impl View for Dump {
    type V = DumpState;

    closed spec fn view(&self) -> DumpState {
        DumpState {
            channel: self.channel,
            show_status: self.show_status,
            limit: self.limit,
            count: self.count,
        }
    }
}

impl Dump {
    /// A dump of `channel` that has printed nothing yet.
    pub fn new(channel: u8, show_status: bool, limit: Option<usize>) -> (dump: Self)
        ensures
            dump@ == (DumpState { channel, show_status, limit, count: 0 }),
    {
        Dump { channel, show_status, limit, count: 0 }
    }

    /// How many frames were printed.
    pub fn count(&self) -> (count: usize)
        ensures
            count == self@.count,
    {
        self.count
    }

    /// Whether the limit is reached, so that nothing more is to be read.
    pub fn is_done(&self) -> (done: bool)
        ensures
            done == self@.ends_with(0),
    {
        match self.limit {
            Some(limit) => self.count >= limit,
            None => false,
        }
    }

    /// Take what one read brought and say what is to be printed of it. A quiet bus is
    /// not an error.
    pub fn accept(&mut self, received: Result<RxChunk, Error>) -> (r: Result<DumpBatch, Error>)
        requires
            received matches Ok(chunk) ==> old(self)@.count + chunk.frames@.len() <= usize::MAX,
        ensures
            match received {
                Ok(chunk) => {
                    &&& r matches Ok(batch)
                    &&& batch.prints(old(self)@, chunk)
                    &&& final(self)@ == (DumpState {
                        count: (old(self)@.count + batch.frames@.len()) as usize,
                        ..old(self)@
                    })
                },
                Err(Error::Timeout { .. }) => {
                    &&& r matches Ok(batch)
                    &&& batch.frames@.len() == 0 && batch.status@.len() == 0
                    &&& batch.done == old(self)@.ends_with(0)
                    &&& final(self)@ == old(self)@
                },
                Err(e) => r == Err::<DumpBatch, Error>(e) && final(self)@ == old(self)@,
            },
    {
        let chunk: RxChunk = match received {
            Ok(chunk) => chunk,
            Err(Error::Timeout { .. }) => {
                let done: bool = self.is_done();
                return Ok(DumpBatch { frames: Vec::new(), status: Vec::new(), done });
            },
            Err(e) => return Err(e),
        };
        let mut frames: Vec<CanFrame> = chunk.frames_on(self.channel);
        proof {
            lemma_on_channel_len(chunk.frames@, self.channel);
        }
        let mut done: bool = false;
        match self.limit {
            Some(limit) => {
                let room: usize = if limit > self.count {
                    limit - self.count
                } else {
                    0
                };
                if frames.len() >= room {
                    frames.truncate(room);
                    done = true;
                }
            },
            None => {},
        }
        assert(frames@ =~= old(self)@.printed(receive::on_channel(chunk.frames@, self.channel)));
        self.count = self.count + frames.len();
        if self.show_status && !done {
            Ok(DumpBatch { frames, status: chunk.status, done })
        } else {
            Ok(DumpBatch { frames, status: Vec::new(), done })
        }
    }

    /// What is said after the last frame.
    pub fn describe_end(&self) -> (s: String)
        ensures
            s@ == finished_text(self@.count),
    {
        let mut s = String::new();
        s.append("\n");
        text::push_decimal(&mut s, self.count as u64);
        s.append(" frame(s) received");
        assert(s@ =~= finished_text(self@.count));
        s
    }
}

proof fn lemma_on_channel_len(frames: Seq<CanFrame>, channel: u8)
    ensures
        receive::on_channel(frames, channel).len() <= frames.len(),
{
    frames.lemma_filter_len(|f: CanFrame| f.channel == channel);
}

// ───────────────────────────── Laws ─────────────────────────────

/// With a limit, exactly that many frames are printed before the dump ends: as long
/// as it goes on the count is below the limit, and it ends at the limit.
pub proof fn law_dump_stops_at_limit(s: DumpState, frames: Seq<CanFrame>, limit: usize)
    requires
        s.limit == Some(limit),
        s.count <= limit,
    ensures
        s.ends_with(frames.len()) ==> s.count + s.printed(frames).len() == limit,
        !s.ends_with(frames.len()) ==> s.count + s.printed(frames).len() < limit,
{
}

/// Once the limit is reached nothing more is printed.
pub proof fn law_finished_dump_prints_nothing(s: DumpState, frames: Seq<CanFrame>)
    requires
        s.ends_with(0),
    ensures
        s.printed(frames) == Seq::<CanFrame>::empty(),
        s.ends_with(frames.len()),
{
}

/// Without a limit every frame of the channel is printed.
pub proof fn law_dump_without_limit_prints_all(s: DumpState, frames: Seq<CanFrame>)
    requires
        s.limit is None,
    ensures
        s.printed(frames) == frames,
        !s.ends_with(frames.len()),
{
}

/// What is printed is the front of what arrived, in order.
pub proof fn law_dump_prints_in_order(s: DumpState, frames: Seq<CanFrame>)
    ensures
        s.printed(frames).len() <= frames.len(),
        forall|i: int|
            0 <= i < s.printed(frames).len() ==> #[trigger] s.printed(frames)[i] == frames[i],
        s.limit matches Some(limit) ==> s.printed(frames).len() == (if s.count >= limit {
            0
        } else if frames.len() < limit - s.count {
            frames.len() as int
        } else {
            limit - s.count
        }),
        s.ends_with(frames.len()) <==> (s.limit matches Some(limit) && s.count + frames.len()
            >= limit),
{
}

/// What is printed of a batch: frames of the channel only, and status records only if
/// they are asked for and the dump goes on.
pub proof fn law_dump_batch(batch: DumpBatch, s: DumpState, chunk: RxChunk)
    requires
        batch.prints(s, chunk),
    ensures
        batch.frames@ == s.printed(receive::on_channel(chunk.frames@, s.channel)),
        batch.done <==> (s.limit matches Some(limit) && s.count + receive::on_channel(
            chunk.frames@,
            s.channel,
        ).len() >= limit),
        s.show_status && !batch.done ==> batch.status@ == chunk.status@,
        !s.show_status || batch.done ==> batch.status@.len() == 0,
{
}

/// The columns of a frame: channel, identifier, length and payload.
pub proof fn law_frame_columns(frame: CanFrame)
    ensures
        exists|c: Seq<char>, d: Seq<char>| #[trigger]
            text::reads(c, frame.channel as int) && #[trigger] text::reads(d, frame.dlc as int)
                && frame_columns(frame) == "  can"@ + c + "  "@ + notation::id_column(frame)
                + "  ["@ + d + "] "@ + notation::data_column(frame),
{
    text::law_written_numbers_read(frame.channel as int, 0, true);
    text::law_written_numbers_read(frame.dlc as int, 0, true);
}

/// The names of the kinds of status record; no two share one.
pub proof fn law_kind_names(a: RxStatusKind, b: RxStatusKind)
    ensures
        kind_name(RxStatusKind::TxAbort) == "TxAbort"@,
        kind_name(RxStatusKind::Overflow) == "Overflow"@,
        kind_name(RxStatusKind::CanError) == "CanError"@,
        kind_name(RxStatusKind::Status) == "Status"@,
        kind_name(RxStatusKind::BusErrorOrPassive) == "BusErrorOrPassive"@,
        kind_name(RxStatusKind::Other) == "Other"@,
        kind_name(a) == kind_name(b) ==> a == b,
{
    reveal_strlit("TxAbort");
    reveal_strlit("Overflow");
    reveal_strlit("CanError");
    reveal_strlit("Status");
    reveal_strlit("BusErrorOrPassive");
    reveal_strlit("Other");
    assert("TxAbort"@[0] == 'T' && "Overflow"@[0] == 'O' && "CanError"@[0] == 'C' && "Status"@[0]
        == 'S' && "BusErrorOrPassive"@[0] == 'B');
    assert("Overflow"@.len() == 8 && "Other"@.len() == 5);
}

/// The line of a status record shows its kind and its first twelve bytes, two digits
/// and a space each.
pub proof fn law_status_line(status: RxStatus, i: int)
    requires
        0 <= i < 12,
    ensures
        ({
            let s = status_line(status);
            let at = 9 + kind_name(status.kind).len() + 2;
            &&& s.len() == at + 35
            &&& s.take(9) == "  status "@
            &&& s.subrange(9, at - 2) == kind_name(status.kind)
            &&& s.subrange(at - 2, at as int) == ": "@
            &&& text::number(s.subrange(at + 3 * i, at + 3 * i + 2), 16) == Some(
                status.raw@[i] as nat,
            )
        }),
{
    let s = status_line(status);
    let name = kind_name(status.kind);
    let at = 9 + name.len() as int + 2;
    let raw = status.raw@.take(12);
    let list = text::hex_list(raw, " "@);
    reveal_strlit("  status ");
    reveal_strlit(": ");
    reveal_strlit(" ");
    text::law_hex_list_entries(raw, " "@, i);
    assert(s.take(9) =~= "  status "@);
    assert(s.subrange(9, at - 2) =~= name);
    assert(s.subrange(at - 2, at) =~= ": "@);
    assert(s.subrange(at + 3 * i, at + 3 * i + 2) =~= list.subrange(3 * i, 3 * i + 2));
}

/// What is said before and after the frames names the channel, the rate, the mode and
/// the number of frames.
pub proof fn law_dump_announcements(
    channel: u8,
    bitrate: Bitrate,
    listen_only: bool,
    count: usize,
)
    ensures
        exists|c: Seq<char>| #[trigger]
            text::reads(c, channel as int) && listening_text(channel, bitrate, listen_only)
                == "listening on channel "@ + c + " at "@ + bitrate.text() + " ("@ + (
            if listen_only {
                "listen-only"@
            } else {
                "normal"@
            }) + "); press Ctrl-C to stop"@,
        exists|n: Seq<char>| #[trigger]
            text::reads(n, count as int) && finished_text(count) == "\n"@ + n
                + " frame(s) received"@,
{
    text::law_written_numbers_read(channel as int, 0, true);
    text::law_written_numbers_read(count as int, 0, true);
}

} // verus!
