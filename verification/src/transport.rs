//! The transport capability the protocol engine runs over, and an in-memory
//! transport for loopback-style exchanges against a scripted peer.

use vstd::prelude::*;

verus! {

use crate::error::TransportError;

/// A blocking, byte-exact bidirectional stream: what the protocol engine
/// requires of a serial line, a socket or an in-memory buffer.
///
/// The contract models the stream with two ghost byte sequences: the bytes
/// the peer will deliver, consumed from the front by [`Transport::read_one`],
/// and the bytes written so far, extended by [`Transport::write_one`].
pub trait Transport {
    /// The bytes this transport will deliver, in delivery order.
    spec fn incoming(&self) -> Seq<u8>;

    /// The bytes written to this transport so far, in order.
    spec fn sent(&self) -> Seq<u8>;

    /// Whether this transport never fails on its own: reads fail only when
    /// no byte is left to deliver, and writes and flushes never fail. An
    /// in-memory transport is reliable; a serial line or a socket is not.
    spec fn reliable(&self) -> bool;

    /// Reads exactly one byte, blocking until it arrives, or fails with the
    /// transport unchanged.
    fn read_one(&mut self) -> (r: Result<u8, TransportError>)
        ensures
            final(self).reliable() == old(self).reliable(),
            match r {
                Ok(b) => {
                    &&& old(self).incoming().len() > 0
                    &&& b == old(self).incoming()[0]
                    &&& final(self).incoming() == old(self).incoming().skip(1)
                    &&& final(self).sent() == old(self).sent()
                },
                Err(_) => {
                    &&& final(self).incoming() == old(self).incoming()
                    &&& final(self).sent() == old(self).sent()
                    &&& (old(self).reliable() ==> old(self).incoming().len() == 0)
                },
            },
    ;

    /// Writes exactly one byte, blocking until it is accepted, or fails with
    /// the transport unchanged.
    fn write_one(&mut self, b: u8) -> (r: Result<(), TransportError>)
        ensures
            final(self).reliable() == old(self).reliable(),
            match r {
                Ok(_) => {
                    &&& final(self).sent() == old(self).sent().push(b)
                    &&& final(self).incoming() == old(self).incoming()
                },
                Err(_) => {
                    &&& final(self).incoming() == old(self).incoming()
                    &&& final(self).sent() == old(self).sent()
                    &&& !old(self).reliable()
                },
            },
    ;

    /// Pushes buffered writes toward the peer. Neither sequence changes:
    /// `sent` already lists every written byte.
    fn flush(&mut self) -> (r: Result<(), TransportError>)
        ensures
            final(self).reliable() == old(self).reliable(),
            final(self).incoming() == old(self).incoming(),
            final(self).sent() == old(self).sent(),
            r is Err ==> !old(self).reliable(),
    ;
}

/// An in-memory transport: reads are served from a fixed script of bytes,
/// writes are recorded. It stands in for one half of a connected pair, with
/// the script playing the peer's side of the exchange.
pub struct InMemoryTransport {
    rx: Vec<u8>,
    rx_pos: usize,
    tx: Vec<u8>,
}

impl InMemoryTransport {
    /// A transport that will deliver exactly the bytes of `script` and has
    /// written nothing yet.
    pub fn new(script: Vec<u8>) -> (t: Self)
        ensures
            t.incoming() == script@,
            t.sent() == Seq::<u8>::empty(),
            t.reliable(),
    {
        let t = InMemoryTransport { rx: script, rx_pos: 0, tx: Vec::new() };
        proof {
            assert(t.rx@.skip(0) =~= t.rx@);
        }
        t
    }

    /// The bytes written so far, for inspection after an exchange.
    pub fn sent_bytes(&self) -> (v: &Vec<u8>)
        ensures
            v@ == self.sent(),
    {
        &self.tx
    }
}

impl Transport for InMemoryTransport {
    closed spec fn incoming(&self) -> Seq<u8> {
        if self.rx_pos <= self.rx@.len() {
            self.rx@.skip(self.rx_pos as int)
        } else {
            Seq::<u8>::empty()
        }
    }

    closed spec fn sent(&self) -> Seq<u8> {
        self.tx@
    }

    closed spec fn reliable(&self) -> bool {
        true
    }

    fn read_one(&mut self) -> (r: Result<u8, TransportError>) {
        if self.rx_pos < self.rx.len() {
            let b = self.rx[self.rx_pos];
            self.rx_pos = self.rx_pos + 1;
            proof {
                assert(self.rx@.skip(self.rx_pos as int) =~= old(self).rx@.skip(
                    old(self).rx_pos as int,
                ).skip(1));
            }
            Ok(b)
        } else {
            Err(TransportError::Failed)
        }
    }

    fn write_one(&mut self, b: u8) -> (r: Result<(), TransportError>) {
        self.tx.push(b);
        Ok(())
    }

    fn flush(&mut self) -> (r: Result<(), TransportError>) {
        Ok(())
    }
}

} // verus!
