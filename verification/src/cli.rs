//! What the command-line tool says and decides.
//!
//! - [`info`] describes the attached adapters.
//! - [`dump`] prints frames arriving on a channel.
//! - [`send`] transmits a frame.
//! - [`selftest`] verifies an adapter end to end.
//! - [`banner`] tells how to connect to an SLCAN bridge.

use vstd::prelude::*;

use crate::error::Error;

pub mod banner;
pub mod dump;
pub mod info;
pub mod selftest;
pub mod send;

verus! {

/// The log level for so many `-v` flags.
pub open spec fn level_name(verbosity: u8) -> Seq<char> {
    if verbosity == 0 {
        "warn"@
    } else if verbosity == 1 {
        "info"@
    } else if verbosity == 2 {
        "debug"@
    } else {
        "trace"@
    }
}

/// The log level for so many `-v` flags.
pub fn log_level(verbosity: u8) -> (level: &'static str)
    ensures
        level@ == level_name(verbosity),
{
    match verbosity {
        0 => "warn",
        1 => "info",
        2 => "debug",
        _ => "trace",
    }
}

/// What a failure is reported as, with a hint where there is one.
pub open spec fn failure_text(e: Error) -> Seq<char> {
    "error: "@ + e.text() + "\n"@ + if e is DeviceNotFound {
        "hint: check the adapter is attached with `usbcan2eu info`\n"@
    } else {
        ""@
    }
}

/// What a failure is reported as, with a hint where there is one.
pub fn describe_failure(e: &Error) -> (s: String)
    ensures
        s@ == failure_text(*e),
{
    let mut s = String::new();
    s.append("error: ");
    s.append(e.to_string().as_str());
    s.append("\n");
    match e {
        Error::DeviceNotFound { .. } => {
            s.append("hint: check the adapter is attached with `usbcan2eu info`\n");
        },
        _ => {},
    }
    proof {
        reveal_strlit("");
    }
    assert(s@ =~= failure_text(*e));
    s
}

/// The more often `-v` is given the more is logged: warnings, information, debugging,
/// and everything from three times on.
pub proof fn law_log_levels(verbosity: u8)
    ensures
        verbosity < 3 ==> level_name(verbosity) == seq!["warn"@, "info"@, "debug"@][verbosity as int],
        verbosity >= 3 ==> level_name(verbosity) == "trace"@,
{
}

/// A failure is reported by its message; a hint follows exactly if no adapter was found.
pub proof fn law_failure_report(e: Error)
    ensures
        e is DeviceNotFound ==> failure_text(e) == "error: "@ + e.text()
            + "\nhint: check the adapter is attached with `usbcan2eu info`\n"@,
        !(e is DeviceNotFound) ==> failure_text(e) == "error: "@ + e.text() + "\n"@,
{
    reveal_strlit("");
    reveal_strlit("\n");
    reveal_strlit("hint: check the adapter is attached with `usbcan2eu info`\n");
    reveal_strlit("\nhint: check the adapter is attached with `usbcan2eu info`\n");
    assert("\nhint: check the adapter is attached with `usbcan2eu info`\n"@ =~= "\n"@
        + "hint: check the adapter is attached with `usbcan2eu info`\n"@);
    if e is DeviceNotFound {
        assert(failure_text(e) =~= "error: "@ + e.text()
            + "\nhint: check the adapter is attached with `usbcan2eu info`\n"@);
    } else {
        assert(failure_text(e) =~= "error: "@ + e.text() + "\n"@);
    }
}

} // verus!
