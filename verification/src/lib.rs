//! XMODEM file transfer over an arbitrary bidirectional byte stream.
//!
//! The protocol engine ([`Xmodem`]) performs the per-packet handshake,
//! checksum validation, packet-number tracking and cancel signalling of the
//! classic XMODEM protocol; the transfer drivers ([`Xmodem::transmit`] and
//! [`Xmodem::receive`]) chunk a byte source into 128-byte blocks and drive a
//! full multi-packet transfer with a bounded retry policy.
//!
//! Every operation carries a contract stated over the byte sequence the
//! transport will deliver ([`Transport::incoming`]) and the byte sequence the
//! engine has written ([`Transport::sent`]).

pub mod driver;
pub mod engine;
pub mod error;
pub mod laws;
pub mod progress;
pub mod protocol;
pub mod transport;

pub use engine::Xmodem;
pub use error::TransportError;
pub use error::XmodemError;
pub use progress::NoopProgress;
pub use progress::Progress;
pub use progress::ProgressSink;
pub use transport::InMemoryTransport;
pub use transport::Transport;
