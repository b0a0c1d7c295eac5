//! The protocol engine: one packet exchange at a time over an owned
//! transport, tracking the packet sequence number and the handshake state.

use vstd::prelude::*;

verus! {

use crate::error::XmodemError;
use crate::error::is_transport_failure;
use crate::progress::NoopProgress;
use crate::progress::Progress;
use crate::progress::ProgressSink;
use crate::protocol::ACK;
use crate::protocol::CAN;
use crate::protocol::EOT;
use crate::protocol::NAK;
use crate::protocol::SOH;
use crate::protocol::bad_checksum_frame;
use crate::protocol::checksum_spec;
use crate::protocol::eot_frame;
use crate::protocol::frame_of;
use crate::protocol::frame_payload;
use crate::protocol::frame_with_cancel;
use crate::protocol::good_frame;
use crate::protocol::hs_off;
use crate::protocol::next_seq;
use crate::protocol::no_can;
use crate::protocol::read_frame_writes;
use crate::transport::Transport;

/// The XMODEM protocol engine: owns one transport, tracks the current packet
/// sequence number and whether the handshake has started, and performs one
/// complete single-packet exchange per call to [`Xmodem::read_packet`] or
/// [`Xmodem::write_packet`].
pub struct Xmodem<T, P> {
    packet: u8,
    inner: T,
    started: bool,
    progress: P,
}

impl<T: Transport> Xmodem<T, NoopProgress> {
    /// A fresh engine over `inner`, with progress notifications discarded.
    /// The sequence number starts at 1 and the handshake has not started.
    pub fn new(inner: T) -> (x: Self)
        ensures
            x.seq_num() == 1,
            !x.handshake_done(),
            x.rx() == inner.incoming(),
            x.tx() == inner.sent(),
            x.reliable() == inner.reliable(),
    {
        Xmodem { packet: 1, started: false, inner, progress: NoopProgress }
    }
}

impl<T: Transport, P: ProgressSink> Xmodem<T, P> {
    /// The sequence number of the next data packet to exchange.
    pub closed spec fn seq_num(&self) -> u8 {
        self.packet
    }

    /// Whether the initial handshake byte exchange has happened.
    pub closed spec fn handshake_done(&self) -> bool {
        self.started
    }

    /// The bytes the transport will still deliver.
    pub closed spec fn rx(&self) -> Seq<u8> {
        self.inner.incoming()
    }

    /// The bytes written to the transport so far.
    pub closed spec fn tx(&self) -> Seq<u8> {
        self.inner.sent()
    }

    /// Whether the owned transport is reliable (see
    /// [`crate::transport::Transport::reliable`]): if so, the engine reports
    /// a transport failure only on an attempt to read past the end of the
    /// incoming bytes.
    pub closed spec fn reliable(&self) -> bool {
        self.inner.reliable()
    }

    /// A fresh engine over `inner` that reports progress to `f`. The
    /// sequence number starts at 1 and the handshake has not started.
    pub fn new_with_progress(inner: T, f: P) -> (x: Self)
        ensures
            x.seq_num() == 1,
            !x.handshake_done(),
            x.rx() == inner.incoming(),
            x.tx() == inner.sent(),
            x.reliable() == inner.reliable(),
    {
        Xmodem { packet: 1, started: false, inner, progress: f }
    }

    /// Gives the transport back, ending this engine's exclusive ownership.
    pub fn into_inner(self) -> (t: T)
        ensures
            t.incoming() == self.rx(),
            t.sent() == self.tx(),
            t.reliable() == self.reliable(),
    {
        self.inner
    }

    /// Flushes the transport; neither byte sequence changes.
    pub fn flush(&mut self) -> (r: Result<(), XmodemError>)
        ensures
            final(self).seq_num() == old(self).seq_num(),
            final(self).handshake_done() == old(self).handshake_done(),
            final(self).rx() == old(self).rx(),
            final(self).tx() == old(self).tx(),
            final(self).reliable() == old(self).reliable(),
            r is Err ==> is_transport_failure(r) && !old(self).reliable(),
    {
        match self.inner.flush() {
            Ok(_) => Ok(()),
            Err(e) => Err(XmodemError::Transport(e)),
        }
    }

    /// Reads one byte from the transport. With `abort_on_can`, a CANCEL byte
    /// is consumed but reported as `Aborted` instead of returned.
    fn read_byte(&mut self, abort_on_can: bool) -> (r: Result<u8, XmodemError>)
        ensures
            final(self).seq_num() == old(self).seq_num(),
            final(self).handshake_done() == old(self).handshake_done(),
            final(self).tx() == old(self).tx(),
            final(self).reliable() == old(self).reliable(),
            match r {
                Ok(b) => {
                    &&& old(self).rx().len() > 0
                    &&& b == old(self).rx()[0]
                    &&& (abort_on_can ==> b != CAN)
                    &&& final(self).rx() == old(self).rx().skip(1)
                },
                Err(e) => match e {
                    XmodemError::Aborted => {
                        &&& abort_on_can
                        &&& old(self).rx().len() > 0
                        &&& old(self).rx()[0] == CAN
                        &&& final(self).rx() == old(self).rx().skip(1)
                    },
                    XmodemError::Transport(_) => final(self).rx() == old(self).rx() && (!old(
                        self,
                    ).reliable() || old(self).rx().len() == 0),
                    _ => false,
                },
            },
    {
        match self.inner.read_one() {
            Ok(b) => {
                if abort_on_can && b == CAN {
                    Err(XmodemError::Aborted)
                } else {
                    Ok(b)
                }
            },
            Err(e) => Err(XmodemError::Transport(e)),
        }
    }

    /// Writes one byte to the transport.
    fn write_byte(&mut self, byte: u8) -> (r: Result<(), XmodemError>)
        ensures
            final(self).seq_num() == old(self).seq_num(),
            final(self).handshake_done() == old(self).handshake_done(),
            final(self).rx() == old(self).rx(),
            final(self).reliable() == old(self).reliable(),
            match r {
                Ok(_) => final(self).tx() == old(self).tx().push(byte),
                Err(e) => is_transport_failure::<()>(r) && final(self).tx() == old(self).tx()
                    && !old(self).reliable(),
            },
    {
        match self.inner.write_one(byte) {
            Ok(_) => Ok(()),
            Err(e) => Err(XmodemError::Transport(e)),
        }
    }

    /// Reads one byte with cancellation-abort enabled and compares it to
    /// `byte`: a match is returned, a CANCEL byte fails with `Aborted`, any
    /// other byte fails with `InvalidProtocolByte` carrying `expected`.
    /// Nothing is written on a mismatch.
    fn expect_byte(&mut self, byte: u8, expected: &'static str) -> (r: Result<u8, XmodemError>)
        requires
            byte != CAN,
        ensures
            final(self).seq_num() == old(self).seq_num(),
            final(self).handshake_done() == old(self).handshake_done(),
            final(self).tx() == old(self).tx(),
            final(self).reliable() == old(self).reliable(),
            match r {
                Ok(b) => {
                    &&& b == byte
                    &&& old(self).rx().len() > 0
                    &&& old(self).rx()[0] == byte
                    &&& final(self).rx() == old(self).rx().skip(1)
                },
                Err(e) => match e {
                    XmodemError::Aborted => {
                        &&& old(self).rx().len() > 0
                        &&& old(self).rx()[0] == CAN
                        &&& final(self).rx() == old(self).rx().skip(1)
                    },
                    XmodemError::InvalidProtocolByte(_) => {
                        &&& old(self).rx().len() > 0
                        &&& old(self).rx()[0] != byte
                        &&& old(self).rx()[0] != CAN
                        &&& final(self).rx() == old(self).rx().skip(1)
                    },
                    XmodemError::Transport(_) => final(self).rx() == old(self).rx() && (!old(
                        self,
                    ).reliable() || old(self).rx().len() == 0),
                    _ => false,
                },
            },
    {
        let result = match self.read_byte(true) {
            Ok(b) => b,
            Err(e) => {
                return Err(e);
            },
        };
        if byte == result {
            Ok(result)
        } else {
            Err(XmodemError::InvalidProtocolByte(expected))
        }
    }

    /// Reads one byte with cancellation-abort disabled and compares it to
    /// `byte`: a match is returned; on any mismatch the engine itself writes
    /// the CANCEL sentinel back, then fails with `Aborted` if the byte read
    /// was CANCEL and with `InvalidProtocolByte` carrying `expected`
    /// otherwise.
    fn expect_byte_or_cancel(&mut self, byte: u8, expected: &'static str) -> (r: Result<
        u8,
        XmodemError,
    >)
        requires
            byte != CAN,
        ensures
            final(self).seq_num() == old(self).seq_num(),
            final(self).handshake_done() == old(self).handshake_done(),
            final(self).reliable() == old(self).reliable(),
            match r {
                Ok(b) => {
                    &&& b == byte
                    &&& old(self).rx().len() > 0
                    &&& old(self).rx()[0] == byte
                    &&& final(self).rx() == old(self).rx().skip(1)
                    &&& final(self).tx() == old(self).tx()
                },
                Err(e) => match e {
                    XmodemError::Aborted => {
                        &&& old(self).rx().len() > 0
                        &&& old(self).rx()[0] == CAN
                        &&& final(self).rx() == old(self).rx().skip(1)
                        &&& final(self).tx() == old(self).tx().push(CAN)
                    },
                    XmodemError::InvalidProtocolByte(_) => {
                        &&& old(self).rx().len() > 0
                        &&& old(self).rx()[0] != byte
                        &&& old(self).rx()[0] != CAN
                        &&& final(self).rx() == old(self).rx().skip(1)
                        &&& final(self).tx() == old(self).tx().push(CAN)
                    },
                    XmodemError::Transport(_) => {
                        &&& final(self).tx() == old(self).tx()
                        &&& (final(self).rx() == old(self).rx() || (old(self).rx().len() > 0
                            && final(self).rx() == old(self).rx().skip(1)))
                        &&& (!old(self).reliable() || old(self).rx().len() == 0)
                    },
                    _ => false,
                },
            },
    {
        let result = match self.read_byte(false) {
            Ok(b) => b,
            Err(e) => {
                return Err(e);
            },
        };
        if byte == result {
            Ok(byte)
        } else if result == CAN {
            match self.write_byte(CAN) {
                Ok(_) => {},
                Err(e) => {
                    return Err(e);
                },
            }
            Err(XmodemError::Aborted)
        } else {
            match self.write_byte(CAN) {
                Ok(_) => {},
                Err(e) => {
                    return Err(e);
                },
            }
            Err(XmodemError::InvalidProtocolByte(expected))
        }
    }

    /// Reads (downloads) one packet: a complete single-packet protocol
    /// exchange against the transport.
    ///
    /// The payload lands in `buf[0..127]`; the rest of `buf` is untouched.
    /// `Ok(128)` reports one data packet, `Ok(0)` reports the end of the
    /// transfer. The sequence number advances by exactly one, wrapping,
    /// exactly when a data packet is acknowledged; it is unchanged on every
    /// failure, so the same packet can be exchanged again.
    ///
    /// The contract pins the outcome down as a function of the bytes the
    /// peer sends: a well-checksummed data frame is accepted, a frame with a
    /// wrong trailing checksum is answered with NAK and reported as
    /// `ChecksumMismatch`, the end-of-transfer exchange returns 0, a CANCEL
    /// byte at any read with cancellation-abort enabled aborts, and anything
    /// else is an invalid protocol byte — always allowing that the transport
    /// itself may fail at any step.
    ///
    /// A sequence byte that does not match the engine's own counter makes
    /// the engine write CANCEL to the peer, but the exchange still proceeds
    /// to the payload: a permissive, best-effort policy rather than a hard
    /// abort. Whether a strict abort would serve interoperability better is
    /// an open question; the permissive behaviour is kept deliberately.
    pub fn read_packet(&mut self, buf: &mut Vec<u8>) -> (r: Result<usize, XmodemError>)
        ensures
            final(buf)@.len() == old(buf)@.len(),
            final(buf)@.skip(127) == old(buf)@.skip(127),
            final(self).reliable() == old(self).reliable(),
            final(self).rx().len() <= old(self).rx().len(),
            old(buf)@.len() < 128 ==> {
                &&& r == Err::<usize, XmodemError>(XmodemError::BufferTooSmall)
                &&& final(self).seq_num() == old(self).seq_num()
                &&& final(self).handshake_done() == old(self).handshake_done()
                &&& final(self).rx() == old(self).rx()
                &&& final(self).tx() == old(self).tx()
                &&& final(buf)@ == old(buf)@
            },
            r is Ok ==> r == Ok::<usize, XmodemError>(128usize) || r == Ok::<usize, XmodemError>(0usize),
            r == Ok::<usize, XmodemError>(128usize) ==> {
                &&& old(buf)@.len() >= 128
                &&& good_frame(old(self).rx())
                &&& final(self).seq_num() == next_seq(old(self).seq_num())
                &&& final(self).handshake_done()
                &&& final(self).rx() == old(self).rx().skip(131)
                &&& final(self).tx() == old(self).tx() + read_frame_writes(
                    old(self).handshake_done(),
                    old(self).seq_num(),
                    old(self).rx(),
                ) + seq![ACK]
                &&& final(buf)@ == frame_payload(old(self).rx()) + old(buf)@.skip(127)
            },
            r == Ok::<usize, XmodemError>(0usize) ==> {
                &&& old(buf)@.len() >= 128
                &&& eot_frame(old(self).rx())
                &&& final(self).seq_num() == old(self).seq_num()
                &&& final(self).handshake_done()
                &&& final(self).rx() == old(self).rx().skip(2)
                &&& final(self).tx() == old(self).tx() + (if old(self).handshake_done() {
                    Seq::<u8>::empty()
                } else {
                    seq![NAK]
                }) + seq![NAK, ACK]
                &&& final(buf)@ == old(buf)@
            },
            r == Err::<usize, XmodemError>(XmodemError::ChecksumMismatch) ==> {
                &&& old(buf)@.len() >= 128
                &&& bad_checksum_frame(old(self).rx())
                &&& final(self).seq_num() == old(self).seq_num()
                &&& final(self).handshake_done()
                &&& final(self).rx() == old(self).rx().skip(131)
                &&& final(self).tx() == old(self).tx() + read_frame_writes(
                    old(self).handshake_done(),
                    old(self).seq_num(),
                    old(self).rx(),
                ) + seq![NAK]
                &&& final(buf)@ == frame_payload(old(self).rx()) + old(buf)@.skip(127)
            },
            r == Err::<usize, XmodemError>(XmodemError::Aborted) ==> ({
                let hsw = if old(self).handshake_done() {
                    Seq::<u8>::empty()
                } else {
                    seq![NAK]
                };
                &&& final(self).seq_num() == old(self).seq_num()
                &&& final(self).handshake_done()
                &&& exists|k: int| 0 <= k < old(self).rx().len() && old(self).rx()[k] == CAN
                &&& (final(self).tx() == old(self).tx() + hsw || final(self).tx() == old(
                    self,
                ).tx() + hsw + seq![CAN] || final(self).tx() == old(self).tx()
                    + read_frame_writes(
                    old(self).handshake_done(),
                    old(self).seq_num(),
                    old(self).rx(),
                ) || final(self).tx() == old(self).tx() + hsw + seq![NAK])
            }),
            (match r {
                Err(XmodemError::InvalidProtocolByte(_)) => true,
                _ => false,
            }) ==> ({
                let inc = old(self).rx();
                let hsw = if old(self).handshake_done() {
                    Seq::<u8>::empty()
                } else {
                    seq![NAK]
                };
                &&& final(self).seq_num() == old(self).seq_num()
                &&& final(self).handshake_done()
                &&& final(buf)@ == old(buf)@
                &&& inc.len() > 0
                &&& ((inc[0] != SOH && inc[0] != EOT && inc[0] != CAN && final(self).rx()
                    == inc.skip(1) && final(self).tx() == old(self).tx() + hsw) || (inc[0]
                    == EOT && inc.len() >= 2 && inc[1] != EOT && inc[1] != CAN
                    && final(self).rx() == inc.skip(2)
                    && final(self).tx() == old(self).tx() + hsw + seq![NAK]))
            }),
            is_transport_failure(r) ==> final(self).seq_num() == old(self).seq_num()
                || final(self).seq_num() == next_seq(old(self).seq_num()),
            r is Err ==> r != Err::<usize, XmodemError>(XmodemError::TransferFailed),
            r == Err::<usize, XmodemError>(XmodemError::BufferTooSmall) ==> old(buf)@.len()
                < 128,
            old(buf)@.len() >= 128 && good_frame(old(self).rx()) ==> r == Ok::<usize, XmodemError>(128usize)
                || (!old(self).reliable() && is_transport_failure(r)),
            old(buf)@.len() >= 128 && bad_checksum_frame(old(self).rx()) ==> r == Err::<usize, XmodemError>(XmodemError::ChecksumMismatch) || (!old(self).reliable()
                && is_transport_failure(r)),
            old(buf)@.len() >= 128 && eot_frame(old(self).rx()) ==> r == Ok::<usize, XmodemError>(0usize)
                || (!old(self).reliable() && is_transport_failure(r)),
            old(buf)@.len() >= 128 && old(self).rx().len() > 0 && old(self).rx()[0] == CAN ==> ({
                &&& r == Err::<usize, XmodemError>(XmodemError::Aborted)
                &&& final(self).seq_num() == old(self).seq_num()
                &&& final(self).handshake_done()
                &&& final(self).rx() == old(self).rx().skip(1)
                &&& final(self).tx() == old(self).tx() + (if old(self).handshake_done() {
                    Seq::<u8>::empty()
                } else {
                    seq![NAK]
                })
                &&& final(buf)@ == old(buf)@
            }) || (!old(self).reliable() && is_transport_failure(r)),
            old(buf)@.len() >= 128 && frame_with_cancel(old(self).rx()) ==> r == Err::<
                usize,
                XmodemError,
            >(XmodemError::Aborted) || (!old(self).reliable() && is_transport_failure(r)),
            (old(buf)@.len() >= 128 && old(self).rx().len() > 0 && old(self).rx()[0] != SOH
                && old(self).rx()[0] != EOT && old(self).rx()[0] != CAN) ==> (match r {
                Err(XmodemError::InvalidProtocolByte(_)) => true,
                _ => false,
            }) || (!old(self).reliable() && is_transport_failure(r)),
            (old(buf)@.len() >= 128 && old(self).rx().len() >= 2 && old(self).rx()[0] == EOT
                && old(self).rx()[1] == CAN) ==> r == Err::<usize, XmodemError>(
                XmodemError::Aborted,
            ) || (!old(self).reliable() && is_transport_failure(r)),
            (old(buf)@.len() >= 128 && old(self).rx().len() >= 2 && old(self).rx()[0] == EOT
                && old(self).rx()[1] != EOT && old(self).rx()[1] != CAN) ==> (match r {
                Err(XmodemError::InvalidProtocolByte(_)) => true,
                _ => false,
            }) || (!old(self).reliable() && is_transport_failure(r)),
    {
        if buf.len() < 128 {
            return Err(XmodemError::BufferTooSmall);
        }
        if !self.started {
            match self.write_byte(NAK) {
                Ok(_) => {},
                Err(e) => {
                    return Err(e);
                },
            }
            self.started = true;
            self.progress.on_progress(Progress::Started);
        }
        let ghost inc = old(self).rx();
        let byte = match self.read_byte(true) {
            Ok(b) => b,
            Err(e) => {
                return Err(e);
            },
        };
        if byte == SOH {
            let b1 = match self.read_byte(true) {
                Ok(b) => b,
                Err(e) => {
                    return Err(e);
                },
            };
            if b1 != self.packet {
                match self.write_byte(CAN) {
                    Ok(_) => {},
                    Err(e) => {
                        return Err(e);
                    },
                }
            }
            let b2 = match self.read_byte(true) {
                Ok(b) => b,
                Err(e) => {
                    return Err(e);
                },
            };
            if b2 != !self.packet {
                match self.write_byte(CAN) {
                    Ok(_) => {},
                    Err(e) => {
                        return Err(e);
                    },
                }
            }
            proof {
                assert(self.rx() =~= inc.skip(3));
                assert(self.tx() =~= old(self).tx() + read_frame_writes(
                    old(self).handshake_done(),
                    old(self).seq_num(),
                    inc,
                ));
            }
        } else if byte == EOT {
            match self.write_byte(NAK) {
                Ok(_) => {},
                Err(e) => {
                    return Err(e);
                },
            }
            match self.expect_byte(EOT, "expected EOT byte") {
                Ok(_) => {},
                Err(e) => {
                    return Err(e);
                },
            }
            match self.write_byte(ACK) {
                Ok(_) => {},
                Err(e) => {
                    return Err(e);
                },
            }
            proof {
                assert(self.rx() =~= inc.skip(2));
                assert(self.tx() =~= old(self).tx() + (if old(self).handshake_done() {
                    Seq::<u8>::empty()
                } else {
                    seq![NAK]
                }) + seq![NAK, ACK]);
            }
            return Ok(0);
        } else {
            return Err(XmodemError::InvalidProtocolByte("expected SOH or EOT byte"));
        }
        let mut checksum: u8 = 0;
        let mut i: usize = 0;
        while i < 127
            invariant
                0 <= i <= 127,
                old(buf)@.len() >= 128,
                buf@.len() == old(buf)@.len(),
                inc == old(self).rx(),
                inc.len() >= 3 + i,
                self.rx() == inc.skip(3 + i as int),
                self.seq_num() == old(self).seq_num(),
                self.handshake_done(),
                self.reliable() == old(self).reliable(),
                self.tx() == old(self).tx() + read_frame_writes(
                    old(self).handshake_done(),
                    old(self).seq_num(),
                    inc,
                ),
                inc.len() >= 3 ==> inc[0] == SOH && inc[1] != CAN && inc[2] != CAN,
                forall|j: int| 3 <= j < 3 + i ==> inc[j] != CAN,
                buf@ == inc.subrange(3, 3 + i as int) + old(buf)@.skip(i as int),
                checksum == checksum_spec(inc.subrange(3, 3 + i as int)),
            decreases 127 - i,
        {
            proof {
                if good_frame(inc) || bad_checksum_frame(inc) {
                    assert(inc.subrange(3, 131)[i as int] == inc[3 + i as int]);
                    assert(inc.skip(3 + i as int)[0] == inc[3 + i as int]);
                }
            }
            let b = match self.read_byte(true) {
                Ok(b) => b,
                Err(e) => {
                    return Err(e);
                },
            };
            proof {
                assert(b == inc[3 + i as int]);
                assert(self.rx() =~= inc.skip(3 + (i + 1)));
                assert(inc.subrange(3, 3 + (i + 1)).drop_last() =~= inc.subrange(
                    3,
                    3 + i as int,
                ));
                assert(inc.subrange(3, 3 + (i + 1)).last() == inc[3 + i as int]);
            }
            buf.set(i, b);
            proof {
                assert(buf@ =~= inc.subrange(3, 3 + (i + 1)) + old(buf)@.skip(i + 1));
            }
            checksum = ((checksum as u16 + b as u16) % 256) as u8;
            i = i + 1;
        }
        proof {
            if good_frame(inc) || bad_checksum_frame(inc) {
                assert(inc.subrange(3, 131)[127] == inc[130]);
                assert(inc.skip(130)[0] == inc[130]);
            }
        }
        let ck = match self.read_byte(true) {
            Ok(b) => b,
            Err(e) => {
                return Err(e);
            },
        };
        proof {
            assert(ck == inc[130]);
            assert(self.rx() =~= inc.skip(131));
            assert(inc.subrange(3, 130) == frame_payload(inc));
            assert forall|j: int| 0 <= j < 128 implies #[trigger] inc.subrange(3, 131)[j]
                != CAN by {
                assert(inc.subrange(3, 131)[j] == inc[3 + j]);
                if j < 127 {
                    assert(inc[3 + j] != CAN);
                } else {
                    assert(inc[130] == ck && ck != CAN);
                }
            }
            assert(no_can(inc.subrange(3, 131)));
        }
        if checksum != ck {
            match self.write_byte(NAK) {
                Ok(_) => {},
                Err(e) => {
                    return Err(e);
                },
            }
            proof {
                assert(self.tx() =~= old(self).tx() + read_frame_writes(
                    old(self).handshake_done(),
                    old(self).seq_num(),
                    inc,
                ) + seq![NAK]);
                assert(bad_checksum_frame(inc));
            }
            return Err(XmodemError::ChecksumMismatch);
        } else {
            self.progress.on_progress(Progress::Packet(self.packet));
            self.packet = if self.packet == 255 {
                0
            } else {
                self.packet + 1
            };
            match self.write_byte(ACK) {
                Ok(_) => {},
                Err(e) => {
                    return Err(e);
                },
            }
            proof {
                assert(self.tx() =~= old(self).tx() + read_frame_writes(
                    old(self).handshake_done(),
                    old(self).seq_num(),
                    inc,
                ) + seq![ACK]);
                assert(good_frame(inc));
                assert(buf@ =~= frame_payload(inc) + old(buf)@.skip(127));
            }
            return Ok(128);
        }
    }

    /// Sends (uploads) one packet: a complete single-packet protocol
    /// exchange against the transport. An empty `buf` sends the
    /// end-of-transfer exchange instead of a data packet; a non-empty `buf`
    /// must hold at least 128 bytes, of which the first 127 are transmitted.
    ///
    /// `Ok` carries `buf`'s length. The sequence number advances by exactly
    /// one, wrapping, exactly when the peer acknowledges a data packet; it
    /// is unchanged on every failure, so the same packet can be sent again.
    ///
    /// The contract pins the outcome down as a function of the bytes the
    /// peer sends back: after the handshake NAK, the peer answers a data
    /// frame with two echo bytes and a verdict byte — ACK to accept, NAK to
    /// ask for the packet again (`ChecksumMismatch`), CANCEL to abort — and
    /// answers the end-of-transfer exchange with NAK then ACK, which also
    /// resets the handshake for a possible later transfer. The transport
    /// itself may fail at any step.
    pub fn write_packet(&mut self, buf: &[u8]) -> (r: Result<usize, XmodemError>)
        ensures
            final(self).reliable() == old(self).reliable(),
            final(self).rx().len() <= old(self).rx().len(),
            match r {
                Ok(n) => n == buf@.len(),
                _ => true,
            },
            (buf@.len() < 128 && buf@.len() != 0) ==> {
                &&& r == Err::<usize, XmodemError>(XmodemError::BufferTooSmall)
                &&& final(self).seq_num() == old(self).seq_num()
                &&& final(self).handshake_done() == old(self).handshake_done()
                &&& final(self).rx() == old(self).rx()
                &&& final(self).tx() == old(self).tx()
            },
            (r is Ok && buf@.len() >= 128) ==> ({
                let inc = old(self).rx();
                let h = hs_off(old(self).handshake_done());
                &&& inc.len() >= h + 3
                &&& (!old(self).handshake_done() ==> inc[0] == NAK)
                &&& inc[h] != CAN
                &&& inc[h + 1] != CAN
                &&& inc[h + 2] == ACK
                &&& final(self).seq_num() == next_seq(old(self).seq_num())
                &&& final(self).handshake_done()
                &&& final(self).rx() == inc.skip(h + 3)
                &&& final(self).tx() == old(self).tx() + frame_of(
                    old(self).seq_num(),
                    buf@.subrange(0, 127),
                )
            }),
            (r is Ok && buf@.len() == 0) ==> ({
                let inc = old(self).rx();
                let h = hs_off(old(self).handshake_done());
                &&& inc.len() >= h + 2
                &&& (!old(self).handshake_done() ==> inc[0] == NAK)
                &&& inc[h] == NAK
                &&& inc[h + 1] == ACK
                &&& final(self).seq_num() == old(self).seq_num()
                &&& !final(self).handshake_done()
                &&& final(self).rx() == inc.skip(h + 2)
                &&& final(self).tx() == old(self).tx() + seq![EOT, EOT]
            }),
            r == Err::<usize, XmodemError>(XmodemError::ChecksumMismatch) ==> ({
                let inc = old(self).rx();
                let h = hs_off(old(self).handshake_done());
                &&& buf@.len() >= 128
                &&& inc.len() >= h + 3
                &&& (!old(self).handshake_done() ==> inc[0] == NAK)
                &&& inc[h] != CAN
                &&& inc[h + 1] != CAN
                &&& inc[h + 2] == NAK
                &&& final(self).seq_num() == old(self).seq_num()
                &&& final(self).handshake_done()
                &&& final(self).rx() == inc.skip(h + 3)
                &&& final(self).tx() == old(self).tx() + frame_of(
                    old(self).seq_num(),
                    buf@.subrange(0, 127),
                )
            }),
            r == Err::<usize, XmodemError>(XmodemError::Aborted) ==> {
                &&& final(self).seq_num() == old(self).seq_num()
                &&& exists|k: int|
                    0 <= k < old(self).rx().len() && old(self).rx()[k] == CAN
                &&& ((final(self).handshake_done() == old(self).handshake_done()
                    && final(self).tx() == old(self).tx() + seq![CAN])
                    || (final(self).handshake_done()
                    && (final(self).tx() == old(self).tx() + seq![SOH, old(self).seq_num()]
                    || final(self).tx() == old(self).tx() + seq![
                    SOH,
                    old(self).seq_num(),
                    !old(self).seq_num(),
                ] || final(self).tx() == old(self).tx() + frame_of(
                    old(self).seq_num(),
                    buf@.subrange(0, 127),
                ) || final(self).tx() == old(self).tx() + seq![EOT]
                    || final(self).tx() == old(self).tx() + seq![EOT, EOT])))
            },
            (match r {
                Err(XmodemError::InvalidProtocolByte(_)) => true,
                _ => false,
            }) ==> ({
                let inc = old(self).rx();
                &&& final(self).seq_num() == old(self).seq_num()
                &&& ((final(self).handshake_done() == old(self).handshake_done()
                    && inc.len() > 0 && inc[0] != NAK && inc[0] != CAN
                    && final(self).rx() == inc.skip(1)
                    && final(self).tx() == old(self).tx() + seq![CAN])
                    || (final(self).handshake_done() && buf@.len() >= 128
                    && final(self).tx() == old(self).tx() + frame_of(
                    old(self).seq_num(),
                    buf@.subrange(0, 127),
                )) || (final(self).handshake_done() && buf@.len() == 0
                    && (final(self).tx() == old(self).tx() + seq![EOT]
                    || final(self).tx() == old(self).tx() + seq![EOT, EOT])))
            }),
            is_transport_failure(r) ==> final(self).seq_num() == old(self).seq_num(),
            r is Err ==> r != Err::<usize, XmodemError>(XmodemError::TransferFailed),
            r == Err::<usize, XmodemError>(XmodemError::BufferTooSmall) ==> 0 < buf@.len()
                < 128,
            (buf@.len() >= 128 && ({
                let inc = old(self).rx();
                let h = hs_off(old(self).handshake_done());
                &&& inc.len() >= h + 3
                &&& (!old(self).handshake_done() ==> inc[0] == NAK)
                &&& inc[h] != CAN
                &&& inc[h + 1] != CAN
                &&& inc[h + 2] == ACK
            })) ==> r == Ok::<usize, XmodemError>(buf@.len() as usize) || (!old(self).reliable()
                && is_transport_failure(r)),
            (buf@.len() >= 128 && ({
                let inc = old(self).rx();
                let h = hs_off(old(self).handshake_done());
                &&& inc.len() >= h + 3
                &&& (!old(self).handshake_done() ==> inc[0] == NAK)
                &&& inc[h] != CAN
                &&& inc[h + 1] != CAN
                &&& inc[h + 2] == NAK
            })) ==> r == Err::<usize, XmodemError>(XmodemError::ChecksumMismatch) || (!old(
                self,
            ).reliable() && is_transport_failure(r)),
            (buf@.len() == 0 && ({
                let inc = old(self).rx();
                let h = hs_off(old(self).handshake_done());
                &&& inc.len() >= h + 2
                &&& (!old(self).handshake_done() ==> inc[0] == NAK)
                &&& inc[h] == NAK
                &&& inc[h + 1] == ACK
            })) ==> r == Ok::<usize, XmodemError>(0usize) || (!old(self).reliable()
                && is_transport_failure(r)),
            ((buf@.len() == 0 || buf@.len() >= 128) && !old(self).handshake_done() && old(
                self,
            ).rx().len() > 0 && old(self).rx()[0] == CAN) ==> ({
                &&& r == Err::<usize, XmodemError>(XmodemError::Aborted)
                &&& final(self).seq_num() == old(self).seq_num()
                &&& !final(self).handshake_done()
                &&& final(self).rx() == old(self).rx().skip(1)
                &&& final(self).tx() == old(self).tx() + seq![CAN]
            }) || (!old(self).reliable() && is_transport_failure(r)),
            (buf@.len() >= 128 && ({
                let inc = old(self).rx();
                let h = hs_off(old(self).handshake_done());
                &&& (!old(self).handshake_done() ==> inc.len() >= 1 && inc[0] == NAK)
                &&& ((inc.len() > h && inc[h] == CAN) || (inc.len() > h + 1 && inc[h] != CAN
                    && inc[h + 1] == CAN) || (inc.len() > h + 2 && inc[h] != CAN && inc[h + 1]
                    != CAN && inc[h + 2] == CAN))
            })) ==> r == Err::<usize, XmodemError>(XmodemError::Aborted) || (!old(
                self,
            ).reliable() && is_transport_failure(r)),
            (buf@.len() == 0 && ({
                let inc = old(self).rx();
                let h = hs_off(old(self).handshake_done());
                &&& (!old(self).handshake_done() ==> inc.len() >= 1 && inc[0] == NAK)
                &&& ((inc.len() > h && inc[h] == CAN) || (inc.len() > h + 1 && inc[h] == NAK
                    && inc[h + 1] == CAN))
            })) ==> r == Err::<usize, XmodemError>(XmodemError::Aborted) || (!old(
                self,
            ).reliable() && is_transport_failure(r)),
            (buf@.len() >= 128 && ({
                let inc = old(self).rx();
                let h = hs_off(old(self).handshake_done());
                &&& inc.len() >= h + 3
                &&& (!old(self).handshake_done() ==> inc[0] == NAK)
                &&& inc[h] != CAN
                &&& inc[h + 1] != CAN
                &&& inc[h + 2] != ACK
                &&& inc[h + 2] != NAK
                &&& inc[h + 2] != CAN
            })) ==> (match r {
                Err(XmodemError::InvalidProtocolByte(_)) => true,
                _ => false,
            }) || (!old(self).reliable() && is_transport_failure(r)),
            (buf@.len() == 0 && ({
                let inc = old(self).rx();
                let h = hs_off(old(self).handshake_done());
                &&& (!old(self).handshake_done() ==> inc.len() >= 1 && inc[0] == NAK)
                &&& ((inc.len() > h && inc[h] != NAK && inc[h] != CAN) || (inc.len() > h + 1
                    && inc[h] == NAK && inc[h + 1] != ACK && inc[h + 1] != CAN))
            })) ==> (match r {
                Err(XmodemError::InvalidProtocolByte(_)) => true,
                _ => false,
            }) || (!old(self).reliable() && is_transport_failure(r)),
            ((buf@.len() == 0 || buf@.len() >= 128) && !old(self).handshake_done() && old(
                self,
            ).rx().len() > 0 && old(self).rx()[0] != NAK && old(self).rx()[0] != CAN) ==> (
            match r {
                Err(XmodemError::InvalidProtocolByte(_)) => true,
                _ => false,
            }) || (!old(self).reliable() && is_transport_failure(r)),
    {
        if buf.len() < 128 && buf.len() != 0 {
            return Err(XmodemError::BufferTooSmall);
        }
        let ghost inc = old(self).rx();
        let ghost h = hs_off(old(self).handshake_done());
        if !self.started {
            self.progress.on_progress(Progress::Waiting);
            match self.expect_byte_or_cancel(NAK, "expected NAK as first byte") {
                Ok(_) => {},
                Err(e) => {
                    return Err(e);
                },
            }
            self.started = true;
            self.progress.on_progress(Progress::Started);
        }
        if buf.len() != 0 {
            let packet = self.packet;
            match self.write_byte(SOH) {
                Ok(_) => {},
                Err(e) => {
                    return Err(e);
                },
            }
            match self.write_byte(packet) {
                Ok(_) => {},
                Err(e) => {
                    return Err(e);
                },
            }
            match self.read_byte(true) {
                Ok(_) => {},
                Err(e) => {
                    return Err(e);
                },
            }
            match self.write_byte(!packet) {
                Ok(_) => {},
                Err(e) => {
                    return Err(e);
                },
            }
            match self.read_byte(true) {
                Ok(_) => {},
                Err(e) => {
                    return Err(e);
                },
            }
            self.progress.on_progress(Progress::Started);
            proof {
                assert(self.rx() =~= inc.skip(h + 2));
                assert(self.tx() =~= old(self).tx() + seq![SOH, packet, !packet]
                    + buf@.subrange(0, 0));
            }
            let mut checksum: u8 = 0;
            let mut i: usize = 0;
            while i < 127
                invariant
                    0 <= i <= 127,
                    buf@.len() >= 128,
                    inc == old(self).rx(),
                    h == hs_off(old(self).handshake_done()),
                    packet == old(self).seq_num(),
                    self.seq_num() == old(self).seq_num(),
                    self.handshake_done(),
                    self.reliable() == old(self).reliable(),
                    inc.len() >= h + 2,
                    !old(self).handshake_done() ==> inc[0] == NAK,
                    inc[h] != CAN,
                    inc[h + 1] != CAN,
                    self.rx() == inc.skip(h + 2),
                    self.tx() == old(self).tx() + seq![SOH, packet, !packet] + buf@.subrange(
                        0,
                        i as int,
                    ),
                    checksum == checksum_spec(buf@.subrange(0, i as int)),
                decreases 127 - i,
            {
                match self.write_byte(buf[i]) {
                    Ok(_) => {},
                    Err(e) => {
                        return Err(e);
                    },
                }
                proof {
                    assert(buf@.subrange(0, i + 1).drop_last() =~= buf@.subrange(0, i as int));
                    assert(buf@.subrange(0, i + 1).last() == buf@[i as int]);
                    assert(self.tx() =~= old(self).tx() + seq![SOH, packet, !packet]
                        + buf@.subrange(0, i + 1));
                }
                checksum = ((checksum as u16 + buf[i] as u16) % 256) as u8;
                i = i + 1;
            }
            match self.write_byte(checksum) {
                Ok(_) => {},
                Err(e) => {
                    return Err(e);
                },
            }
            proof {
                assert(self.tx() =~= old(self).tx() + frame_of(packet, buf@.subrange(0, 127)));
            }
            let done = match self.read_byte(true) {
                Ok(b) => b,
                Err(e) => {
                    return Err(e);
                },
            };
            proof {
                assert(done == inc[h + 2]);
                assert(self.rx() =~= inc.skip(h + 3));
            }
            if done == ACK {
                self.progress.on_progress(Progress::Packet(self.packet));
                self.packet = if self.packet == 255 {
                    0
                } else {
                    self.packet + 1
                };
                Ok(buf.len())
            } else if done == NAK {
                Err(XmodemError::ChecksumMismatch)
            } else {
                Err(XmodemError::InvalidProtocolByte("expected ACK or NAK"))
            }
        } else {
            match self.write_byte(EOT) {
                Ok(_) => {},
                Err(e) => {
                    return Err(e);
                },
            }
            match self.expect_byte(NAK, "expected NAK to end the transmission") {
                Ok(_) => {},
                Err(e) => {
                    return Err(e);
                },
            }
            match self.write_byte(EOT) {
                Ok(_) => {},
                Err(e) => {
                    return Err(e);
                },
            }
            match self.expect_byte(ACK, "expected ACK to end the transmission") {
                Ok(_) => {},
                Err(e) => {
                    return Err(e);
                },
            }
            self.started = false;
            proof {
                assert(self.rx() =~= inc.skip(h + 2));
                assert(self.tx() =~= old(self).tx() + seq![EOT, EOT]);
            }
            Ok(0)
        }
    }
}

} // verus!
