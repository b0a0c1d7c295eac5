//! Error types of the protocol engine and the transfer drivers.

use vstd::prelude::*;

verus! {

/// A failure reported by the underlying transport.
///
/// `Interrupted` is the one transient kind: the transfer drivers retry a
/// packet exchange that failed this way, up to the fixed retry bound. Every
/// other transport failure is carried as `Failed` and aborts the transfer.
#[derive(Clone, Copy, Debug, PartialEq, Eq, Structural)]
pub enum TransportError {
    Interrupted,
    Failed,
}

/// A failure of a single packet exchange or of a whole transfer.
#[derive(Clone, Copy, Debug, PartialEq, Eq)]
pub enum XmodemError {
    /// The caller's buffer cannot hold a packet: shorter than 128 bytes for
    /// a read, or a length other than 0 and at least 128 for a write.
    /// A caller programming error; never retried.
    BufferTooSmall,
    /// The peer sent a control byte other than the one the protocol calls
    /// for at this point of the exchange, named by the carried diagnostic.
    /// Fatal for the current exchange.
    InvalidProtocolByte(&'static str),
    /// The packet checksum did not match: the peer asked for the packet
    /// again. Transient; the transfer drivers retry the same packet.
    ChecksumMismatch,
    /// The peer cancelled the transfer with the CANCEL sentinel.
    Aborted,
    /// The per-packet retry budget of a transfer driver was exhausted.
    TransferFailed,
    /// The underlying transport failed; the transport's own kind is kept.
    Transport(TransportError),
}

impl XmodemError {
    /// Whether a transfer driver retries the packet exchange after this
    /// error: only a checksum mismatch or an interrupted transport
    /// operation, every other kind is surfaced at once.
    pub open spec fn is_transient(self) -> bool {
        self == XmodemError::ChecksumMismatch
            || self == XmodemError::Transport(TransportError::Interrupted)
    }

    /// Executable form of [`XmodemError::is_transient`].
    pub fn is_transient_exec(&self) -> (r: bool)
        ensures
            r == self.is_transient(),
    {
        match self {
            XmodemError::ChecksumMismatch => true,
            XmodemError::Transport(TransportError::Interrupted) => true,
            _ => false,
        }
    }
}

/// Whether a packet exchange ended in a failure of the underlying transport,
/// the one outcome the engine's contracts cannot rule out on any input.
pub open spec fn is_transport_failure<A>(r: Result<A, XmodemError>) -> bool {
    match r {
        Err(XmodemError::Transport(_)) => true,
        _ => false,
    }
}

} // verus!
