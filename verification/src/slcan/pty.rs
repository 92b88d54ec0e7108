//! What a failed read or write of the pseudo-terminal means.

use vstd::prelude::*;

use crate::error::Error;

verus! {

/// The kinds of failure that the bridge tells apart.
#[derive(Debug, Clone, Copy, PartialEq, Eq, Structural)]
pub enum FaultKind {
    /// There is nothing to read yet.
    WouldBlock,
    /// The other end is closed.
    BrokenPipe,
    /// The other end closed in the middle.
    UnexpectedEof,
    /// The system's input/output error (`EIO`), which the master reports when no
    /// client has the slave open.
    HostIo,
    /// Anything else.
    Other,
}

/// A failed operation on the pseudo-terminal.
#[derive(Debug)]
pub struct PtyFault {
    /// Its kind.
    pub kind: FaultKind,
    /// The system's description.
    pub message: String,
}

impl PtyFault {
    /// Whether the fault just means that no client is attached.
    pub open spec fn disconnected(self) -> bool {
        self.kind is BrokenPipe || self.kind is UnexpectedEof || self.kind is HostIo
    }
}

/// Whether a fault just means "no client is attached to the pseudo-terminal".
pub fn is_disconnected(fault: &PtyFault) -> (yes: bool)
    ensures
        yes == fault.disconnected(),
{
    match fault.kind {
        FaultKind::BrokenPipe | FaultKind::UnexpectedEof | FaultKind::HostIo => true,
        _ => false,
    }
}

/// Conclude a read, treating "nothing yet" and "no client" as zero bytes.
pub fn read_nonblocking(done: Result<usize, PtyFault>) -> (r: Result<usize, Error>)
    ensures
        match done {
            Ok(n) => r == Ok::<usize, Error>(n),
            Err(fault) => if fault.kind is WouldBlock || fault.disconnected() {
                r == Ok::<usize, Error>(0)
            } else {
                r == Err::<usize, Error>(Error::Io(fault.message))
            },
        },
{
    match done {
        Ok(n) => Ok(n),
        Err(fault) => if fault.kind == FaultKind::WouldBlock || is_disconnected(&fault) {
            Ok(0)
        } else {
            Err(Error::Io(fault.message))
        },
    }
}

/// A client is gone exactly if the other end is closed or the system says `EIO`; having
/// nothing to read is no such thing.
pub proof fn law_disconnection(fault: PtyFault)
    ensures
        fault.disconnected() <==> fault.kind != FaultKind::WouldBlock && fault.kind
            != FaultKind::Other,
{
}

} // verus!
