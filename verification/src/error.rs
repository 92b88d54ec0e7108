//! Error type for all driver operations.

use vstd::prelude::*;

use crate::text;

verus! {

/// Everything that can go wrong talking to a USBCAN-(2)E-U.
#[derive(Debug)]
#[non_exhaustive]
pub enum Error {
    /// The underlying USB transport reported a failure.
    Usb {
        /// `IOReturn` value reported by the kernel.
        code: i32,
        /// Human-readable description, including which operation failed.
        message: String,
    },
    /// No device with a matching VID/PID is attached.
    DeviceNotFound {
        /// USB vendor ID that was searched for.
        vid: u16,
        /// USB product ID that was searched for.
        pid: u16,
    },
    /// The device is present but does not expose an endpoint we need.
    MissingEndpoint {
        /// The endpoint address that could not be opened.
        addr: u8,
    },
    /// Channel index that the adapter does not have.
    InvalidChannel(u8),
    /// Requested bitrate is not in the supported table.
    UnsupportedBitrate(u32),
    /// A transfer did not complete within the requested time.
    Timeout {
        /// How long the operation waited, in milliseconds.
        ms: u32,
    },
    /// Device setup / enumeration failed.
    Init(String),
    /// The device replied, but the reply did not follow the wire protocol.
    Protocol(&'static str),
    /// The device explicitly rejected a command.
    Rejected {
        /// The command the device refused.
        cmd: u8,
        /// The status byte it replied with; bit 7 marks the refusal.
        status: u8,
    },
    /// An operating-system call failed; the text is the system's description.
    Io(String),
}

impl Error {
    /// The message that describes the error.
    pub open spec fn text(self) -> Seq<char> {
        match self {
            Error::Usb { code, message } => "USB error ("@ + text::signed_decimal(code as int)
                + "): "@ + message@,
            Error::DeviceNotFound { vid, pid } => "device not found (VID=0x"@ + text::hexadecimal(
                vid as nat,
                4,
                false,
            ) + " PID=0x"@ + text::hexadecimal(pid as nat, 4, false) + ")"@,
            Error::MissingEndpoint { addr } => "required endpoint 0x"@ + text::hexadecimal(
                addr as nat,
                2,
                false,
            ) + " not present on device"@,
            Error::InvalidChannel(channel) => "invalid channel index "@ + text::decimal(
                channel as nat,
            ) + " (must be 0 or 1)"@,
            Error::UnsupportedBitrate(kbps) => "unsupported bitrate: "@ + text::decimal(
                kbps as nat,
            ) + " kbit/s"@,
            Error::Timeout { ms } => "operation timed out after "@ + text::decimal(ms as nat)
                + " ms"@,
            Error::Init(reason) => "initialization failure: "@ + reason@,
            Error::Protocol(reason) => "protocol error: "@ + reason@,
            Error::Rejected { cmd, status } => "device rejected command 0x"@ + text::hexadecimal(
                cmd as nat,
                2,
                false,
            ) + " (status byte 0x"@ + text::hexadecimal(status as nat, 2, false) + ")"@,
            Error::Io(reason) => reason@,
        }
    }

    /// The message that describes the error.
    pub fn to_string(&self) -> (s: String)
        ensures
            s@ == self.text(),
    {
        let mut s = String::new();
        match self {
            Error::Usb { code, message } => {
                s.append("USB error (");
                text::push_signed_decimal(&mut s, *code);
                s.append("): ");
                s.append(message.as_str());
            },
            Error::DeviceNotFound { vid, pid } => {
                s.append("device not found (VID=0x");
                text::push_hexadecimal(&mut s, *vid as u32, 4, false);
                s.append(" PID=0x");
                text::push_hexadecimal(&mut s, *pid as u32, 4, false);
                s.append(")");
            },
            Error::MissingEndpoint { addr } => {
                s.append("required endpoint 0x");
                text::push_hexadecimal(&mut s, *addr as u32, 2, false);
                s.append(" not present on device");
            },
            Error::InvalidChannel(channel) => {
                s.append("invalid channel index ");
                text::push_decimal(&mut s, *channel as u64);
                s.append(" (must be 0 or 1)");
            },
            Error::UnsupportedBitrate(kbps) => {
                s.append("unsupported bitrate: ");
                text::push_decimal(&mut s, *kbps as u64);
                s.append(" kbit/s");
            },
            Error::Timeout { ms } => {
                s.append("operation timed out after ");
                text::push_decimal(&mut s, *ms as u64);
                s.append(" ms");
            },
            Error::Init(reason) => {
                s.append("initialization failure: ");
                s.append(reason.as_str());
            },
            Error::Protocol(reason) => {
                s.append("protocol error: ");
                s.append(reason);
            },
            Error::Rejected { cmd, status } => {
                s.append("device rejected command 0x");
                text::push_hexadecimal(&mut s, *cmd as u32, 2, false);
                s.append(" (status byte 0x");
                text::push_hexadecimal(&mut s, *status as u32, 2, false);
                s.append(")");
            },
            Error::Io(reason) => {
                s.append(reason.as_str());
            },
        }
        assert(s@ =~= self.text());
        s
    }
}

/// Whether `r` failed with [`Error::Protocol`] carrying `text`.
pub open spec fn protocol_error<T>(r: Result<T, Error>, text: Seq<char>) -> bool {
    r matches Err(Error::Protocol(m)) && m@ == text
}

/// An initialization failure with a fixed reason.
pub(crate) fn init_failure(reason: &str) -> (e: Error)
    ensures
        e matches Error::Init(m) && m@ == reason@,
{
    let mut s = String::new();
    s.append(reason);
    assert(s@ =~= reason@);
    Error::Init(s)
}

/// Whether `r` failed with [`Error::Init`] carrying `text`.
pub open spec fn init_error<T>(r: Result<T, Error>, text: Seq<char>) -> bool {
    r matches Err(Error::Init(m)) && m@ == text
}

/// The message of an error names what the error holds: each number in it reads as the
/// number that went wrong, and each text stands in it as it is.
pub proof fn law_messages_name_the_values(e: Error)
    ensures
        match e {
            Error::Usb { code, message } => exists|d: Seq<char>| #[trigger]
                text::reads(d, code as int) && e.text() == "USB error ("@ + d + "): "@ + message@,
            Error::DeviceNotFound { vid, pid } => exists|v: Seq<char>, p: Seq<char>| #[trigger]
                text::reads_hex(v, vid as nat, 4) && #[trigger] text::reads_hex(p, pid as nat, 4)
                    && e.text() == "device not found (VID=0x"@ + v + " PID=0x"@ + p + ")"@,
            Error::MissingEndpoint { addr } => exists|d: Seq<char>| #[trigger]
                text::reads_hex(d, addr as nat, 2) && e.text() == "required endpoint 0x"@ + d
                    + " not present on device"@,
            Error::InvalidChannel(channel) => exists|d: Seq<char>| #[trigger]
                text::reads(d, channel as int) && e.text() == "invalid channel index "@ + d
                    + " (must be 0 or 1)"@,
            Error::UnsupportedBitrate(kbps) => exists|d: Seq<char>| #[trigger]
                text::reads(d, kbps as int) && e.text() == "unsupported bitrate: "@ + d
                    + " kbit/s"@,
            Error::Timeout { ms } => exists|d: Seq<char>| #[trigger]
                text::reads(d, ms as int) && e.text() == "operation timed out after "@ + d
                    + " ms"@,
            Error::Init(reason) => e.text() == "initialization failure: "@ + reason@,
            Error::Protocol(reason) => e.text() == "protocol error: "@ + reason@,
            Error::Rejected { cmd, status } => exists|c: Seq<char>, d: Seq<char>| #[trigger]
                text::reads_hex(c, cmd as nat, 2) && #[trigger] text::reads_hex(d, status as nat, 2)
                    && e.text() == "device rejected command 0x"@ + c + " (status byte 0x"@ + d
                    + ")"@,
            Error::Io(reason) => e.text() == reason@,
        },
{
    match e {
        Error::Usb { code, message } => {
            text::law_written_numbers_read(code as int, 0, false);
        },
        Error::DeviceNotFound { vid, pid } => {
            text::law_written_numbers_read(vid as int, 4, false);
            text::law_written_numbers_read(pid as int, 4, false);
        },
        Error::MissingEndpoint { addr } => {
            text::law_written_numbers_read(addr as int, 2, false);
        },
        Error::InvalidChannel(channel) => {
            text::law_written_numbers_read(channel as int, 0, false);
        },
        Error::UnsupportedBitrate(kbps) => {
            text::law_written_numbers_read(kbps as int, 0, false);
        },
        Error::Timeout { ms } => {
            text::law_written_numbers_read(ms as int, 0, false);
        },
        Error::Rejected { cmd, status } => {
            text::law_written_numbers_read(cmd as int, 2, false);
            text::law_written_numbers_read(status as int, 2, false);
        },
        _ => {},
    }
}

/// A failure is of the named kind and says what it is said to.
pub proof fn law_named_failures<T>(r: Result<T, Error>, reason: Seq<char>)
    ensures
        protocol_error(r, reason) ==> r is Err && r->Err_0 is Protocol && r->Err_0.text()
            == "protocol error: "@ + reason,
        init_error(r, reason) ==> r is Err && r->Err_0 is Init && r->Err_0.text()
            == "initialization failure: "@ + reason,
{
}

} // verus!
