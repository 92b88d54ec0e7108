//! Transmitting a frame from the command line.

use vstd::prelude::*;

use crate::error::Error;
use crate::notation;
use crate::protocol::{CanFrame, TxAck};
use crate::text;

verus! {

/// The frame that the command line asks for.
pub fn frame_to_send(notation: &str) -> (r: Result<CanFrame, Error>)
    ensures
        match notation::frame_notation(notation@) {
            Ok(frame) => r == Ok::<CanFrame, Error>(frame),
            Err(reason) => r matches Err(Error::Init(m)) && m@ == reason,
        },
{
    match notation::parse_frame(notation) {
        Ok(frame) => Ok(frame),
        Err(reason) => Err(Error::Init(reason)),
    }
}

/// What is said of a frame once its acknowledgement is there.
#[derive(Debug)]
pub enum SendReport {
    /// It was accepted; this goes to standard output.
    Sent(String),
    /// It was not; this goes to standard error.
    NotAccepted(String),
}

/// Whether `report` is what is said of `frame`, given its acknowledgement.
pub open spec fn reports(report: SendReport, frame: CanFrame, ack: TxAck) -> bool {
    if ack.status == 0x0e {
        report matches SendReport::Sent(s) && s@ == "sent "@ + frame.text()
    } else {
        report matches SendReport::NotAccepted(s) && s@
            == "adapter did not accept the frame (status 0x"@ + text::hexadecimal(
            ack.status as nat,
            2,
            true,
        ) + ")"@
    }
}

/// What is said of `frame` once its acknowledgement is there.
pub fn report_send(frame: &CanFrame, ack: &TxAck) -> (report: SendReport)
    ensures
        reports(report, *frame, *ack),
{
    let mut s = String::new();
    if ack.is_success() {
        s.append("sent ");
        s.append(notation::format_frame(frame).as_str());
        SendReport::Sent(s)
    } else {
        s.append("adapter did not accept the frame (status 0x");
        text::push_hexadecimal(&mut s, ack.status as u32, 2, true);
        s.append(")");
        SendReport::NotAccepted(s)
    }
}

// ───────────────────────────── Repeats ─────────────────────────────

/// What a [`Send`] needs next.
#[derive(Debug)]
pub enum SendStep {
    /// Transmit this frame; conclude with [`Send::transmitted`].
    Transmit(CanFrame),
    /// Wait; conclude with [`Send::waited`].
    Wait {
        /// For so many milliseconds.
        ms: u64,
    },
    /// Nothing: the repeats are done.
    Finished,
}

/// How far a [`Send`] has come.
pub struct SendState {
    /// The frame.
    pub frame: CanFrame,
    /// How many times to transmit it.
    pub count: usize,
    /// How long to wait between two transmissions.
    pub interval_ms: u64,
    /// How many times it was transmitted.
    pub sent: usize,
    /// Whether the next thing is to wait.
    pub waiting: bool,
    /// Whether a transmission failed.
    pub failed: bool,
}

impl SendState {
    /// A send that has transmitted nothing yet.
    pub open spec fn fresh(frame: CanFrame, count: usize, interval_ms: u64) -> Self {
        SendState { frame, count, interval_ms, sent: 0, waiting: false, failed: false }
    }

    /// What is needed next.
    pub open spec fn next(self) -> SendStep {
        if self.failed {
            SendStep::Finished
        } else if self.waiting {
            SendStep::Wait { ms: self.interval_ms }
        } else if self.sent < self.count {
            SendStep::Transmit(self.frame)
        } else {
            SendStep::Finished
        }
    }

    /// After a transmission that was acknowledged. There is no wait after the last.
    pub open spec fn after_ack(self) -> Self {
        SendState {
            sent: (self.sent + 1) as usize,
            waiting: self.sent + 1 < self.count,
            ..self
        }
    }

    /// After a transmission that failed.
    pub open spec fn after_failure(self) -> Self {
        SendState { failed: true, ..self }
    }

    /// After a wait.
    pub open spec fn after_wait(self) -> Self {
        SendState { waiting: false, ..self }
    }
}

/// One frame, transmitted a number of times.
#[derive(Debug)]
pub struct Send {
    frame: CanFrame,
    count: usize,
    interval_ms: u64,
    sent: usize,
    waiting: bool,
    failed: bool,
}

impl View for Send {
    type V = SendState;

    closed spec fn view(&self) -> SendState {
        SendState {
            frame: self.frame,
            count: self.count,
            interval_ms: self.interval_ms,
            sent: self.sent,
            waiting: self.waiting,
            failed: self.failed,
        }
    }
}

impl Send {
    /// Transmit `frame` `count` times, with `interval_ms` milliseconds between two.
    pub fn new(frame: CanFrame, count: usize, interval_ms: u64) -> (send: Self)
        ensures
            send@ == SendState::fresh(frame, count, interval_ms),
    {
        Send { frame, count, interval_ms, sent: 0, waiting: false, failed: false }
    }

    /// What is needed next.
    pub fn step(&self) -> (step: SendStep)
        ensures
            step == self@.next(),
    {
        if self.failed {
            SendStep::Finished
        } else if self.waiting {
            SendStep::Wait { ms: self.interval_ms }
        } else if self.sent < self.count {
            SendStep::Transmit(self.frame)
        } else {
            SendStep::Finished
        }
    }

    /// Conclude a transmission and say what is to be reported of it. The first one
    /// that fails ends the send; one that the adapter did not accept does not.
    pub fn transmitted(&mut self, result: Result<TxAck, Error>) -> (r: Result<SendReport, Error>)
        requires
            old(self)@.sent < usize::MAX,
        ensures
            match result {
                Ok(ack) => {
                    &&& r matches Ok(report)
                    &&& reports(report, old(self)@.frame, ack)
                    &&& final(self)@ == old(self)@.after_ack()
                },
                Err(e) => {
                    &&& r == Err::<SendReport, Error>(e)
                    &&& final(self)@ == old(self)@.after_failure()
                },
            },
    {
        match result {
            Ok(ack) => {
                self.sent += 1;
                self.waiting = self.sent < self.count;
                Ok(report_send(&self.frame, &ack))
            },
            Err(e) => {
                self.failed = true;
                Err(e)
            },
        }
    }

    /// Conclude a wait.
    pub fn waited(&mut self)
        ensures
            final(self)@ == old(self)@.after_wait(),
    {
        self.waiting = false;
    }
}

// ───────────────────────────── Laws ─────────────────────────────

/// What is done from `s` on, if no transmission fails.
pub open spec fn send_steps(s: SendState) -> Seq<SendStep>
    decreases
        s.count - s.sent,
        if s.waiting {
            1int
        } else {
            0int
        },
{
    match s.next() {
        SendStep::Transmit(_) => seq![s.next()] + send_steps(s.after_ack()),
        SendStep::Wait { .. } => seq![s.next()] + send_steps(s.after_wait()),
        SendStep::Finished => Seq::empty(),
    }
}

/// The frame is transmitted exactly `count` times, with one wait between two
/// transmissions and none after the last: the steps alternate, and start and end with
/// a transmission.
pub proof fn law_frame_is_sent_count_times(frame: CanFrame, count: usize, interval_ms: u64)
    ensures
        ({
            let steps = send_steps(SendState::fresh(frame, count, interval_ms));
            &&& steps.len() == (if count == 0 {
                0
            } else {
                2 * count - 1
            })
            &&& forall|i: int|
                0 <= i < steps.len() ==> #[trigger] steps[i] == (if i % 2 == 0 {
                    SendStep::Transmit(frame)
                } else {
                    SendStep::Wait { ms: interval_ms }
                })
        }),
{
    lemma_steps_alternate(SendState::fresh(frame, count, interval_ms));
}

/// From a transmission on, the steps alternate and end with a transmission.
proof fn lemma_steps_alternate(s: SendState)
    requires
        !s.failed,
        !s.waiting,
        s.sent <= s.count,
    ensures
        send_steps(s).len() == (if s.sent == s.count {
            0
        } else {
            2 * (s.count - s.sent) - 1
        }),
        forall|i: int|
            0 <= i < send_steps(s).len() ==> #[trigger] send_steps(s)[i] == (if i % 2 == 0 {
                SendStep::Transmit(s.frame)
            } else {
                SendStep::Wait { ms: s.interval_ms }
            }),
    decreases s.count - s.sent,
{
    if s.sent < s.count {
        let acked = s.after_ack();
        if acked.waiting {
            let rested = acked.after_wait();
            lemma_steps_alternate(rested);
            let rest = send_steps(rested);
            assert(send_steps(acked) == seq![acked.next()] + rest);
            assert(send_steps(s) =~= seq![s.next(), acked.next()] + rest);
            assert forall|i: int| 0 <= i < send_steps(s).len() implies #[trigger] send_steps(s)[i]
                == (if i % 2 == 0 {
                SendStep::Transmit(s.frame)
            } else {
                SendStep::Wait { ms: s.interval_ms }
            }) by {
                if i >= 2 {
                    assert(send_steps(s)[i] == rest[i - 2]);
                }
            }
        } else {
            assert(send_steps(acked) =~= Seq::empty());
        }
    }
}

/// The first transmission that fails ends the send.
pub proof fn law_failed_transmission_ends_the_send(s: SendState)
    ensures
        s.after_failure().next() is Finished,
{
}

/// A send that is accepted is reported with the frame, and only then; else the report
/// names the status.
pub proof fn law_send_report(report: SendReport, frame: CanFrame, ack: TxAck)
    requires
        reports(report, frame, ack),
    ensures
        report is Sent <==> ack.status == 0x0e,
        report matches SendReport::Sent(s) ==> s@ == "sent "@ + frame.text(),
        report matches SendReport::NotAccepted(s) ==> exists|d: Seq<char>| #[trigger]
            text::reads_hex(d, ack.status as nat, 2) && s@
                == "adapter did not accept the frame (status 0x"@ + d + ")"@,
{
    text::law_written_numbers_read(ack.status as int, 2, true);
}

} // verus!
