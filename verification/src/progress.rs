//! Progress reporting: a caller-supplied capability that the engine notifies
//! at defined lifecycle points, synchronously and in-line.

use vstd::prelude::*;

verus! {

/// One lifecycle notification of a transfer.
#[derive(Clone, Copy, Debug, PartialEq, Eq, Structural)]
pub enum Progress {
    /// The sender is about to wait for the receiver's first handshake byte.
    Waiting,
    /// The handshake just completed.
    Started,
    /// The packet with this sequence number was exchanged successfully.
    Packet(u8),
}

/// A sink for [`Progress`] notifications. The engine calls it synchronously
/// and consumes no return value; an implementation may do anything with the
/// events, and the engine's contracts promise nothing about it.
pub trait ProgressSink {
    fn on_progress(&mut self, progress: Progress);
}

/// The default sink: discards every notification.
pub struct NoopProgress;

impl ProgressSink for NoopProgress {
    fn on_progress(&mut self, progress: Progress) {
    }
}

} // verus!
