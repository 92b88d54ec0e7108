//! What the end of a USB transfer means to the driver.
//!
//! The transport performs a transfer and reports what came of it in plain values:
//! how many bytes went out, which bytes came in, or the error object of the
//! operating system as a [`UsbFault`]. The functions here turn that into the
//! result that the rest of the driver works with.

use vstd::prelude::*;

use crate::error::Error;
use crate::text;

verus! {

/// `kIOReturnTimeout` (0xE00002D6).
pub const TIMEOUT_CODE: i32 = -536870186;

/// `kIOReturnAborted` (0xE00002EB).
pub const ABORTED_CODE: i32 = -536870165;

/// The codes that opening a pipe fails with when the endpoint is not there.
pub const NO_ENDPOINT_CODES: [i32; 2] = [-536870206, -536870212];

/// One write that the transport is asked for.
#[derive(Debug)]
pub struct UsbWrite {
    /// Address of the endpoint to write to.
    pub endpoint: u8,
    /// What to write.
    pub data: Vec<u8>,
    /// Completion timeout. `None` on interrupt pipes, which accept none.
    pub timeout_ms: Option<u32>,
}

impl UsbWrite {
    /// Whether this writes `data` to `endpoint` with that timeout.
    pub open spec fn is(self, endpoint: u8, data: Seq<u8>, timeout_ms: Option<u32>) -> bool {
        self.endpoint == endpoint && self.data@ == data && self.timeout_ms == timeout_ms
    }
}

/// One read that the transport is asked for.
#[derive(Debug, Clone, Copy, PartialEq, Eq, Structural)]
pub struct UsbRead {
    /// Address of the endpoint to read from.
    pub endpoint: u8,
    /// How many bytes the transfer may bring.
    pub room: usize,
    /// How long to wait.
    pub timeout_ms: u32,
    /// Whether the pipe cannot carry the timeout itself, so that a watchdog has to
    /// abort it.
    pub watchdog: bool,
}

/// The error object that a failed IOUSBHost call hands back.
#[derive(Debug)]
pub struct UsbFault {
    /// Error code. The low 32 bits are the `IOReturn` value.
    pub code: i64,
    /// Error domain.
    pub domain: String,
    /// Localized description.
    pub description: String,
}

impl UsbFault {
    /// The `IOReturn` value: the low 32 bits of the code, as a signed number.
    pub open spec fn io_return(self) -> i32 {
        let low = self.code as int % 0x1_0000_0000;
        if low < 0x8000_0000 {
            low as i32
        } else {
            (low - 0x1_0000_0000) as i32
        }
    }

    /// The description of the failure of the operation named by `context`.
    pub open spec fn text(self, context: Seq<char>) -> Seq<char> {
        context + ": ["@ + self.domain@ + " "@ + text::signed_decimal(self.io_return() as int)
            + "] "@ + self.description@
    }

    /// Whether `e` reports this fault of the operation named by `context`.
    pub open spec fn reported(self, context: Seq<char>, e: Error) -> bool {
        e matches Error::Usb { code, message } && code == self.io_return() && message@ == self.text(
            context,
        )
    }

    /// Whether the transfer ran out of time.
    pub open spec fn timed_out(self) -> bool {
        self.io_return() == TIMEOUT_CODE
    }

    /// Whether the transfer was aborted, or ran out of time.
    pub open spec fn aborted(self) -> bool {
        self.io_return() == ABORTED_CODE || self.io_return() == TIMEOUT_CODE
    }
}

/// The `IOReturn` value of a fault.
pub fn error_code(fault: &UsbFault) -> (code: i32)
    ensures
        code == fault.io_return(),
{
    let code: i64 = fault.code;
    let low: i32 = #[verifier::truncate] (code as i32);
    assert(low as int == (if code as int % 0x1_0000_0000 < 0x8000_0000 {
        code as int % 0x1_0000_0000
    } else {
        code as int % 0x1_0000_0000 - 0x1_0000_0000
    })) by (bit_vector)
        requires
            low == code as i32,
    ;
    low
}

/// Report a fault of the operation named by `context`.
pub fn nserror_to_error(fault: &UsbFault, context: &str) -> (e: Error)
    ensures
        fault.reported(context@, e),
{
    let code: i32 = error_code(fault);
    let mut message = String::new();
    message.append(context);
    message.append(": [");
    message.append(fault.domain.as_str());
    message.append(" ");
    text::push_signed_decimal(&mut message, code);
    message.append("] ");
    message.append(fault.description.as_str());
    assert(message@ =~= fault.text(context@));
    Error::Usb { code, message }
}

/// Whether the transfer ran out of time.
pub fn is_timeout(fault: &UsbFault) -> (yes: bool)
    ensures
        yes == fault.timed_out(),
{
    error_code(fault) == TIMEOUT_CODE
}

/// Whether the transfer was aborted, which is what the watchdog of an interrupt
/// read does when the time is up.
pub fn is_aborted(fault: &UsbFault) -> (yes: bool)
    ensures
        yes == fault.aborted(),
{
    let code: i32 = error_code(fault);
    code == ABORTED_CODE || code == TIMEOUT_CODE
}

// ───────────────────────── Transfers ─────────────────────────

/// What the end of a bulk write means.
pub open spec fn bulk_out_outcome(
    done: Result<usize, UsbFault>,
    timeout_ms: u32,
    r: Result<(), Error>,
) -> bool {
    match done {
        Ok(_) => r is Ok,
        Err(fault) => if fault.timed_out() {
            r == Err::<(), Error>(Error::Timeout { ms: timeout_ms })
        } else {
            r matches Err(e) && fault.reported("bulk OUT"@, e)
        },
    }
}

/// What the end of a bulk read of up to `room` bytes means.
pub open spec fn bulk_in_outcome(
    done: Result<Vec<u8>, UsbFault>,
    room: usize,
    timeout_ms: u32,
    r: Result<Vec<u8>, Error>,
) -> bool {
    match done {
        Ok(bytes) => r matches Ok(data) && data@ == front(bytes@, room as nat),
        Err(fault) => if fault.timed_out() {
            r == Err::<Vec<u8>, Error>(Error::Timeout { ms: timeout_ms })
        } else {
            r matches Err(e) && fault.reported("bulk IN"@, e)
        },
    }
}

/// What the end of an interrupt write means.
pub open spec fn interrupt_out_outcome(
    done: Result<usize, UsbFault>,
    r: Result<(), Error>,
) -> bool {
    match done {
        Ok(_) => r is Ok,
        Err(fault) => r matches Err(e) && fault.reported("interrupt OUT"@, e),
    }
}

/// What the end of an interrupt read of up to `room` bytes means.
pub open spec fn interrupt_in_outcome(
    done: Result<Vec<u8>, UsbFault>,
    room: usize,
    timeout_ms: u32,
    r: Result<Vec<u8>, Error>,
) -> bool {
    match done {
        Ok(bytes) => r matches Ok(data) && data@ == front(bytes@, room as nat),
        Err(fault) => if fault.aborted() {
            r == Err::<Vec<u8>, Error>(Error::Timeout { ms: timeout_ms })
        } else {
            r matches Err(e) && fault.reported("interrupt IN"@, e)
        },
    }
}

/// The first `n` bytes of `s`, or all of it if it is shorter.
pub open spec fn front(s: Seq<u8>, n: nat) -> Seq<u8> {
    if s.len() <= n {
        s
    } else {
        s.take(n as int)
    }
}

/// Keep the first `n` bytes.
fn cut(bytes: Vec<u8>, n: usize) -> (data: Vec<u8>)
    ensures
        data@ == front(bytes@, n as nat),
{
    let mut data: Vec<u8> = bytes;
    data.truncate(n);
    assert(data@ =~= front(bytes@, n as nat));
    data
}

/// Conclude a bulk write. A short write is not a failure.
pub fn bulk_out(done: Result<usize, UsbFault>, timeout_ms: u32) -> (r: Result<(), Error>)
    ensures
        bulk_out_outcome(done, timeout_ms, r),
{
    match done {
        Ok(_) => Ok(()),
        Err(fault) => if is_timeout(&fault) {
            Err(Error::Timeout { ms: timeout_ms })
        } else {
            Err(nserror_to_error(&fault, "bulk OUT"))
        },
    }
}

/// Conclude a bulk read of up to `room` bytes.
pub fn bulk_in(done: Result<Vec<u8>, UsbFault>, room: usize, timeout_ms: u32) -> (r: Result<
    Vec<u8>,
    Error,
>)
    ensures
        bulk_in_outcome(done, room, timeout_ms, r),
{
    match done {
        Ok(bytes) => Ok(cut(bytes, room)),
        Err(fault) => if is_timeout(&fault) {
            Err(Error::Timeout { ms: timeout_ms })
        } else {
            Err(nserror_to_error(&fault, "bulk IN"))
        },
    }
}

/// Conclude an interrupt write. IOUSBHost requires that it carries no timeout.
pub fn interrupt_out(done: Result<usize, UsbFault>) -> (r: Result<(), Error>)
    ensures
        interrupt_out_outcome(done, r),
{
    match done {
        Ok(_) => Ok(()),
        Err(fault) => Err(nserror_to_error(&fault, "interrupt OUT")),
    }
}

/// Conclude an interrupt read of up to `room` bytes.
///
/// Interrupt transfers cannot carry a timeout, so the transport aborts the pipe
/// once `timeout_ms` have passed: an aborted read is one that timed out.
pub fn interrupt_in_timeout(done: Result<Vec<u8>, UsbFault>, room: usize, timeout_ms: u32) -> (r:
    Result<Vec<u8>, Error>)
    ensures
        interrupt_in_outcome(done, room, timeout_ms, r),
{
    match done {
        Ok(bytes) => Ok(cut(bytes, room)),
        Err(fault) => if is_aborted(&fault) {
            Err(Error::Timeout { ms: timeout_ms })
        } else {
            Err(nserror_to_error(&fault, "interrupt IN"))
        },
    }
}

/// Copy `bytes` to the front of `buf`, as far as they fit, and say how many did.
pub fn copy_out(bytes: &[u8], buf: &mut [u8]) -> (n: usize)
    ensures
        n == (if bytes@.len() <= old(buf)@.len() { bytes@.len() } else { old(buf)@.len() }),
        final(buf)@ == bytes@.take(n as int) + old(buf)@.skip(n as int),
{
    let n: usize = if bytes.len() <= buf.len() {
        bytes.len()
    } else {
        buf.len()
    };
    let mut i: usize = 0;
    while i < n
        invariant
            i <= n,
            n <= bytes@.len(),
            n <= old(buf)@.len(),
            buf@.len() == old(buf)@.len(),
            buf@ =~= bytes@.take(i as int) + old(buf)@.skip(i as int),
        decreases n - i,
    {
        buf[i] = bytes[i];
        i += 1;
    }
    n
}

// ───────────────────────────── Laws ─────────────────────────────

/// The `IOReturn` value agrees with the code of the fault in its low 32 bits.
pub proof fn law_io_return_is_low_half(fault: UsbFault)
    ensures
        (fault.io_return() - fault.code) % 0x1_0000_0000 == 0,
{
}

/// A fault is a timeout exactly if the low 32 bits of its code are `0xE00002D6`, and
/// counts as an abort if they are that or `0xE00002EB`.
pub proof fn law_timeout_and_abort_codes(fault: UsbFault)
    ensures
        fault.timed_out() <==> fault.code as int % 0x1_0000_0000 == 0xE000_02D6,
        fault.aborted() <==> fault.code as int % 0x1_0000_0000 == 0xE000_02D6 || fault.code as int
            % 0x1_0000_0000 == 0xE000_02EB,
{
}

/// The report of a fault starts with what was being done, ends with the description of
/// the system, and names the domain and the code in between.
pub proof fn law_fault_report(fault: UsbFault, context: Seq<char>, e: Error)
    requires
        fault.reported(context, e),
    ensures
        e is Usb,
        e->code == fault.io_return(),
        ({
            let m = e->message@;
            let c = context.len() as int;
            let d = fault.domain@.len() as int;
            let t = fault.description@.len() as int;
            let digits = m.subrange(c + 3 + d + 1, m.len() - t - 2);
            &&& m.take(c) == context
            &&& m.subrange(c, c + 3) == seq![':', ' ', '[']
            &&& m.subrange(c + 3, c + 3 + d) == fault.domain@
            &&& m[c + 3 + d] == ' '
            &&& digits == text::signed_decimal(fault.io_return() as int)
            &&& m.subrange(m.len() - t - 2, m.len() - t) == seq![']', ' ']
            &&& m.skip(m.len() - t) == fault.description@
        }),
{
    reveal_strlit(": [");
    reveal_strlit(" ");
    reveal_strlit("] ");
    let m = fault.text(context);
    let c = context.len() as int;
    let d = fault.domain@.len() as int;
    let t = fault.description@.len() as int;
    let digits = text::signed_decimal(fault.io_return() as int);
    assert(m.len() == c + 3 + d + 1 + digits.len() + 2 + t);
    assert(m.take(c) =~= context);
    assert(m.subrange(c, c + 3) =~= seq![':', ' ', '[']);
    assert(m.subrange(c + 3, c + 3 + d) =~= fault.domain@);
    assert(m.subrange(c + 3 + d + 1, m.len() - t - 2) =~= digits);
    assert(m.subrange(m.len() - t - 2, m.len() - t) =~= seq![']', ' ']);
    assert(m.skip(m.len() - t) =~= fault.description@);
}

/// The front of a string is as long as asked for, if the string is, and agrees with it.
pub proof fn law_front_is_prefix(s: Seq<u8>, n: nat)
    ensures
        front(s, n).len() == (if s.len() < n {
            s.len()
        } else {
            n
        }),
        forall|i: int| 0 <= i < front(s, n).len() ==> #[trigger] front(s, n)[i] == s[i],
{
}

/// A write succeeds exactly if the transfer did, however many bytes went out. A bulk
/// write that ran out of time says so; every other failure is reported with its code.
pub proof fn law_write_ends(
    done: Result<usize, UsbFault>,
    timeout_ms: u32,
    bulk: Result<(), Error>,
    interrupt: Result<(), Error>,
)
    requires
        bulk_out_outcome(done, timeout_ms, bulk),
        interrupt_out_outcome(done, interrupt),
    ensures
        bulk is Ok <==> done is Ok,
        interrupt is Ok <==> done is Ok,
        done matches Err(fault) ==> {
            &&& fault.timed_out() ==> bulk == Err::<(), Error>(Error::Timeout { ms: timeout_ms })
            &&& !fault.timed_out() ==> bulk->Err_0 is Usb && bulk->Err_0->code == fault.io_return()
                && bulk->Err_0->message@ == fault.text("bulk OUT"@)
            &&& interrupt->Err_0 is Usb && interrupt->Err_0->code == fault.io_return()
                && interrupt->Err_0->message@ == fault.text("interrupt OUT"@)
        },
{
}

/// A read gives the bytes that came in, as many as there is room for. A bulk read that
/// ran out of time, and an interrupt read that was aborted or ran out of time, say so;
/// every other failure is reported with its code.
pub proof fn law_read_ends(
    done: Result<Vec<u8>, UsbFault>,
    room: usize,
    timeout_ms: u32,
    bulk: Result<Vec<u8>, Error>,
    interrupt: Result<Vec<u8>, Error>,
)
    requires
        bulk_in_outcome(done, room, timeout_ms, bulk),
        interrupt_in_outcome(done, room, timeout_ms, interrupt),
    ensures
        bulk is Ok <==> done is Ok,
        interrupt is Ok <==> done is Ok,
        done matches Ok(bytes) ==> {
            &&& bytes@.len() <= room ==> bulk->Ok_0@ == bytes@ && interrupt->Ok_0@ == bytes@
            &&& bytes@.len() > room ==> bulk->Ok_0@ == bytes@.take(room as int)
                && interrupt->Ok_0@ == bytes@.take(room as int)
        },
        done matches Err(fault) ==> {
            let late = Error::Timeout { ms: timeout_ms };
            &&& fault.timed_out() ==> bulk == Err::<Vec<u8>, Error>(late) && interrupt == Err::<
                Vec<u8>,
                Error,
            >(late)
            &&& !fault.timed_out() ==> bulk->Err_0 is Usb && bulk->Err_0->code == fault.io_return()
                && bulk->Err_0->message@ == fault.text("bulk IN"@)
            &&& fault.aborted() ==> interrupt == Err::<Vec<u8>, Error>(late)
            &&& !fault.aborted() ==> interrupt->Err_0 is Usb && interrupt->Err_0->code
                == fault.io_return() && interrupt->Err_0->message@ == fault.text("interrupt IN"@)
        },
{
}

} // verus!
