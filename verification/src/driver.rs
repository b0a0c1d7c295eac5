//! The transfer drivers: full multi-packet transfers built on the engine's
//! single-packet exchanges, with the fixed ten-attempt retry policy per
//! packet.

use vstd::prelude::*;

verus! {

use crate::engine::Xmodem;
use crate::error::XmodemError;
use crate::progress::NoopProgress;
use crate::progress::ProgressSink;
use crate::protocol::ACK;
use crate::protocol::CAN;
use crate::protocol::EOT;
use crate::protocol::NAK;
use crate::protocol::SOH;
use crate::protocol::acks;
use crate::protocol::bad_checksum_frame;
use crate::protocol::bad_frames;
use crate::protocol::block_payload;
use crate::protocol::clean_script;
use crate::protocol::lemma_clean_script_len;
use crate::protocol::lemma_parse_blocks_len;
use crate::protocol::nak_groups;
use crate::protocol::one_reject_script;
use crate::protocol::read_frame_writes;
use crate::protocol::accepted_frame;
use crate::protocol::frame_of;
use crate::protocol::frames_before_cancel;
use crate::protocol::frames_then_cancel;
use crate::protocol::frame_payload;
use crate::protocol::hs_off;
use crate::protocol::next_seq;
use crate::protocol::num_blocks;
use crate::protocol::parse_blocks;
use crate::protocol::received_output;
use crate::protocol::responses_then_cancel;
use crate::protocol::tx_blocks;
use crate::protocol::wire;
use crate::transport::Transport;
use vstd::arithmetic::div_mod::lemma_div_plus_one;
use vstd::arithmetic::div_mod::lemma_fundamental_div_mod_converse_div;

/// Sends the blocks of `data` from `off` on, then the end-of-transfer
/// exchange, retrying each packet up to ten times on a transient failure.
/// Returns the number of data bytes moved, padding excluded.
#[verifier::loop_isolation(false)]
fn transmit_blocks<T: Transport, P: ProgressSink>(
    transmitter: &mut Xmodem<T, P>,
    data: &[u8],
    off: usize,
) -> (r: Result<usize, XmodemError>)
    requires
        off <= data@.len(),
    ensures
        final(transmitter).reliable() == old(transmitter).reliable(),
        r != Err::<usize, XmodemError>(XmodemError::BufferTooSmall),
        match r {
            Ok(n) => n == data@.len() - off,
            _ => true,
        },
        (old(transmitter).reliable() && clean_script(
            old(transmitter).rx(),
            old(transmitter).handshake_done(),
            num_blocks(data@.skip(off as int)) as nat,
        )) ==> ({
            let inc = old(transmitter).rx();
            let nb = num_blocks(data@.skip(off as int));
            &&& r == Ok::<usize, XmodemError>((data@.len() - off) as usize)
            &&& final(transmitter).tx() == old(transmitter).tx() + wire(
                old(transmitter).seq_num(),
                tx_blocks(data@.skip(off as int)),
            )
            &&& final(transmitter).rx() == inc.skip(
                hs_off(old(transmitter).handshake_done()) + 3 * nb + 2,
            )
            &&& !final(transmitter).handshake_done()
        }),
        r != Err::<usize, XmodemError>(XmodemError::ChecksumMismatch),
        (old(transmitter).reliable() && !old(transmitter).handshake_done() && old(
            transmitter,
        ).rx().len() > 0 && old(transmitter).rx()[0] == CAN) ==> r == Err::<
            usize,
            XmodemError,
        >(XmodemError::Aborted),
        (old(transmitter).reliable() && off < data@.len() && (!old(
            transmitter,
        ).handshake_done() ==> old(transmitter).rx().len() >= 1 && old(transmitter).rx()[0]
            == NAK) && nak_groups(
            old(transmitter).rx().skip(hs_off(old(transmitter).handshake_done())),
            10,
        )) ==> r == Err::<usize, XmodemError>(XmodemError::TransferFailed),
        (old(transmitter).reliable() && responses_then_cancel(
            old(transmitter).rx(),
            old(transmitter).handshake_done(),
            num_blocks(data@.skip(off as int)) as nat,
        )) ==> r == Err::<usize, XmodemError>(XmodemError::Aborted),
        (old(transmitter).reliable() && off < data@.len() && one_reject_script(
            old(transmitter).rx(),
            old(transmitter).handshake_done(),
            num_blocks(data@.skip(off as int)) as nat,
        )) ==> ({
            &&& r == Ok::<usize, XmodemError>((data@.len() - off) as usize)
            &&& final(transmitter).tx() == old(transmitter).tx() + frame_of(
                old(transmitter).seq_num(),
                block_payload(data@.skip(off as int), 0),
            ) + wire(old(transmitter).seq_num(), tx_blocks(data@.skip(off as int)))
            &&& !final(transmitter).handshake_done()
        }),
    decreases data@.len() - off,
{
    let ghost inc = old(transmitter).rx();
    let ghost st = old(transmitter).handshake_done();
    let ghost s_data = data@.skip(off as int);
    let ghost nb = num_blocks(s_data);
    let ghost hyp = old(transmitter).reliable() && clean_script(inc, st, nb as nat);
    let ghost hyp_can = old(transmitter).reliable() && !st && inc.len() > 0 && inc[0] == CAN;
    let ghost hyp_ten = old(transmitter).reliable() && off < data@.len() && (!st ==> inc.len()
        >= 1 && inc[0] == NAK) && nak_groups(inc.skip(hs_off(st)), 10);
    let ghost hyp_rej = old(transmitter).reliable() && off < data@.len() && one_reject_script(
        inc,
        st,
        nb as nat,
    );
    let ghost hyp_rtc = old(transmitter).reliable() && responses_then_cancel(inc, st, nb as nat);
    let len = data.len();
    let rem = len - off;
    if rem == 0 {
        proof {
            assert(s_data.len() == 0);
            assert(nb == 0);
            if hyp {
                if !st {
                    assert(clean_script(inc.skip(1), true, 0));
                    assert(inc.skip(1)[0] == inc[1] && inc.skip(1)[1] == inc[2]);
                }
            }
            if hyp_rtc && !st {
                assert(responses_then_cancel(inc.skip(1), true, 0));
                assert(inc.skip(1).len() >= 1 ==> inc.skip(1)[0] == inc[1]);
                assert(inc.skip(1).len() >= 2 ==> inc.skip(1)[1] == inc[2]);
            }
        }
        let empty_buf: Vec<u8> = Vec::new();
        match transmitter.write_packet(empty_buf.as_slice()) {
            Ok(_) => {
                proof {
                    if hyp {
                        assert(wire(old(transmitter).seq_num(), tx_blocks(s_data)) =~= seq![
                            EOT,
                            EOT,
                        ]);
                        assert(tx_blocks(s_data) =~= Seq::<Seq<u8>>::empty());
                        assert(transmitter.tx() =~= old(transmitter).tx() + wire(
                            old(transmitter).seq_num(),
                            tx_blocks(s_data),
                        ));
                    }
                }
                Ok(0)
            },
            Err(e) => Err(e),
        }
    } else {
        let n = if rem < 128 {
            rem
        } else {
            128
        };
        let mut block: Vec<u8> = Vec::new();
        let mut j: usize = 0;
        while j < 128
            invariant
                j <= 128,
                block@.len() == j,
                forall|k: int|
                    0 <= k < j ==> block@[k] == (if off + k < data@.len() {
                        data@[off + k]
                    } else {
                        0u8
                    }),
            decreases 128 - j,
        {
            if j < rem {
                let b = data[off + j];
                block.push(b);
            } else {
                block.push(0);
            }
            j = j + 1;
        }
        proof {
            assert(s_data.len() == rem);
            assert(nb >= 1) by {
                lemma_fundamental_div_mod_converse_div(
                    (s_data.len() + 127) as int,
                    128,
                    ((s_data.len() + 127) as int) / 128,
                    ((s_data.len() + 127) as int) % 128,
                );
            }
            assert(block@.subrange(0, 127) =~= block_payload(s_data, 0));
            assert(inc.skip(0) =~= inc);
            if hyp {
                if !st {
                    assert(clean_script(inc.skip(1), true, nb as nat));
                    assert(inc.skip(1)[0] == inc[1] && inc.skip(1)[1] == inc[2] && inc.skip(
                        1,
                    )[2] == inc[3]);
                }
            }
            if hyp_ten || hyp_rej || hyp_rtc {
                let rest = inc.skip(hs_off(st));
                assert(rest.len() >= 1 ==> rest[0] == inc[hs_off(st)]);
                assert(rest.len() >= 2 ==> rest[1] == inc[hs_off(st) + 1]);
                assert(rest.len() >= 3 ==> rest[2] == inc[hs_off(st) + 2]);
                if hyp_rtc && !st {
                    assert(responses_then_cancel(inc.skip(1), true, nb as nat));
                }
            }
        }
        let ghost h = hs_off(st);
        let mut attempt: usize = 0;
        loop
            invariant
                attempt <= 10,
                transmitter.reliable() == old(transmitter).reliable(),
                hyp ==> {
                    &&& transmitter.seq_num() == old(transmitter).seq_num()
                    &&& transmitter.handshake_done() == old(transmitter).handshake_done()
                    &&& transmitter.rx() == old(transmitter).rx()
                    &&& transmitter.tx() == old(transmitter).tx()
                    &&& attempt == 0
                },
                hyp_can ==> {
                    &&& transmitter.seq_num() == old(transmitter).seq_num()
                    &&& transmitter.handshake_done() == old(transmitter).handshake_done()
                    &&& transmitter.rx() == old(transmitter).rx()
                    &&& attempt == 0
                },
                hyp_ten ==> (attempt == 0 && transmitter.seq_num() == old(
                    transmitter,
                ).seq_num() && transmitter.handshake_done() == old(transmitter).handshake_done()
                    && transmitter.rx() == old(transmitter).rx()) || (attempt > 0
                    && transmitter.seq_num() == old(transmitter).seq_num()
                    && transmitter.handshake_done() && h + 3 * attempt <= inc.len()
                    && transmitter.rx() == inc.skip(h + 3 * attempt) && nak_groups(
                    inc.skip(h + 3 * attempt),
                    (10 - attempt) as nat,
                )),
                hyp_rtc ==> {
                    &&& transmitter.seq_num() == old(transmitter).seq_num()
                    &&& transmitter.handshake_done() == old(transmitter).handshake_done()
                    &&& transmitter.rx() == old(transmitter).rx()
                    &&& attempt == 0
                },
                hyp_rej ==> (attempt == 0 && transmitter.seq_num() == old(
                    transmitter,
                ).seq_num() && transmitter.handshake_done() == old(transmitter).handshake_done()
                    && transmitter.rx() == old(transmitter).rx() && transmitter.tx() == old(
                    transmitter,
                ).tx()) || (attempt == 1 && transmitter.seq_num() == old(transmitter).seq_num()
                    && transmitter.handshake_done() && transmitter.rx() == inc.skip(h + 3)
                    && transmitter.tx() == old(transmitter).tx() + frame_of(
                    old(transmitter).seq_num(),
                    block_payload(s_data, 0),
                )),
            decreases 10 - attempt,
        {
            if attempt >= 10 {
                return Err(XmodemError::TransferFailed);
            }
            match transmitter.write_packet(block.as_slice()) {
                Ok(_) => {
                    proof {
                        assert(data@.skip(off + n as int) =~= s_data.skip(n as int));
                        if rem <= 128 {
                            assert(s_data.skip(n as int).len() == 0);
                            assert(num_blocks(s_data.skip(n as int)) == 0);
                            assert(nb == 1) by {
                                lemma_fundamental_div_mod_converse_div(
                                    (s_data.len() + 127) as int,
                                    128,
                                    1,
                                    s_data.len() - 1,
                                );
                            }
                        } else {
                            assert(num_blocks(s_data.skip(128)) == nb - 1) by {
                                lemma_div_plus_one(s_data.len() - 1, 128int);
                                assert(s_data.skip(128).len() == s_data.len() - 128);
                            }
                        }
                        if hyp {
                            assert(clean_script(inc.skip(h + 3), true, (nb - 1) as nat)) by {
                                if !st {
                                    assert(inc.skip(1).skip(3) =~= inc.skip(4));
                                }
                            }
                        }
                        if hyp_rej {
                            assert(inc.skip(h).skip(3) =~= inc.skip(h + 3));
                            assert(clean_script(inc.skip(h + 3), true, nb as nat));
                            assert(clean_script(inc.skip(h + 3).skip(3), true, (nb - 1) as nat));
                            assert(transmitter.rx() == inc.skip(h + 3).skip(3));
                        }
                        if hyp_rtc {
                            assert(responses_then_cancel(inc.skip(h + 3), true, (nb - 1) as nat))
                                by {
                                if !st {
                                    assert(inc.skip(1).skip(3) =~= inc.skip(4));
                                }
                            }
                        }
                    }
                    let sub = match transmit_blocks(transmitter, data, off + n) {
                        Ok(s) => s,
                        Err(e) => {
                            return Err(e);
                        },
                    };
                    proof {
                        let blocks = tx_blocks(s_data);
                        assert(blocks[0] == block_payload(s_data, 0));
                        assert(tx_blocks(s_data.skip(n as int)) =~= blocks.skip(1)) by {
                            assert forall|i: int|
                                0 <= i < nb - 1 implies tx_blocks(s_data.skip(n as int))[i]
                                =~= blocks.skip(1)[i] by {
                                assert(blocks.skip(1)[i] == block_payload(s_data, i + 1));
                                assert forall|k: int|
                                    0 <= k < 127 implies block_payload(
                                    s_data.skip(n as int),
                                    i,
                                )[k] == block_payload(s_data, i + 1)[k] by {
                                    assert(n == 128 || s_data.skip(n as int).len() == 0);
                                }
                                assert(block_payload(s_data.skip(n as int), i)
                                    =~= block_payload(s_data, i + 1));
                            }
                        }
                        if hyp {
                            assert(transmitter.tx() =~= old(transmitter).tx() + wire(
                                old(transmitter).seq_num(),
                                blocks,
                            ));
                            lemma_clean_script_len(inc, st, nb as nat);
                            assert(inc.skip(h + 3).skip(3 * (nb - 1) + 2) =~= inc.skip(
                                h + 3 * nb + 2,
                            ));
                        }
                        if hyp_rej {
                            assert(transmitter.tx() =~= old(transmitter).tx() + frame_of(
                                old(transmitter).seq_num(),
                                block_payload(s_data, 0),
                            ) + wire(old(transmitter).seq_num(), blocks));
                        }
                    }
                    return Ok(n + sub);
                },
                Err(e) => {
                    proof {
                        if hyp_ten {
                            if attempt == 0 {
                                assert(inc.skip(h).skip(3) =~= inc.skip(h + 3));
                            } else {
                                let cur = inc.skip(h + 3 * attempt);
                                assert(cur[0] != CAN && cur[1] != CAN && cur[2] == NAK);
                                assert(cur.skip(3) =~= inc.skip(h + 3 * (attempt + 1)));
                            }
                        }
                    }
                    if e.is_transient_exec() {
                        attempt = attempt + 1;
                    } else {
                        return Err(e);
                    }
                },
            }
        }
    }
}

/// Receives packets into `into` until the end-of-transfer exchange,
/// retrying each packet up to ten times on a transient failure. Returns the
/// number of bytes appended to `into`.
#[verifier::loop_isolation(false)]
fn receive_blocks<T: Transport, P: ProgressSink>(
    receiver: &mut Xmodem<T, P>,
    into: &mut Vec<u8>,
) -> (r: Result<usize, XmodemError>)
    ensures
        final(receiver).reliable() == old(receiver).reliable(),
        final(into)@.len() >= old(into)@.len(),
        final(into)@.subrange(0, old(into)@.len() as int) == old(into)@,
        (final(into)@.len() - old(into)@.len()) % 128 == 0,
        r != Err::<usize, XmodemError>(XmodemError::BufferTooSmall),
        match r {
            Ok(n) => n % 128 == 0 && final(into)@.len() == old(into)@.len() + n,
            Err(e) => !e.is_transient(),
        },
        (old(receiver).reliable() && bad_frames(old(receiver).rx(), 10)) ==> r == Err::<
            usize,
            XmodemError,
        >(XmodemError::TransferFailed) && final(into)@ == old(into)@,
        (old(receiver).reliable() && old(receiver).rx().len() > 0 && old(receiver).rx()[0]
            == CAN) ==> ({
            &&& r == Err::<usize, XmodemError>(XmodemError::Aborted)
            &&& final(into)@ == old(into)@
            &&& final(receiver).tx() == old(receiver).tx() + (if old(
                receiver,
            ).handshake_done() {
                Seq::<u8>::empty()
            } else {
                seq![NAK]
            })
        }),
        (old(receiver).reliable() && frames_then_cancel(old(receiver).rx(), old(
            receiver,
        ).seq_num())) ==> ({
            let fbc = frames_before_cancel(old(receiver).rx(), old(receiver).seq_num());
            &&& r == Err::<usize, XmodemError>(XmodemError::Aborted)
            &&& final(into)@ == old(into)@ + received_output(fbc)
            &&& final(receiver).tx() == old(receiver).tx() + (if old(
                receiver,
            ).handshake_done() {
                Seq::<u8>::empty()
            } else {
                seq![NAK]
            }) + acks(fbc.len() as int)
        }),
        (old(receiver).reliable() && parse_blocks(old(receiver).rx(), old(receiver).seq_num())
            is Some) ==> ({
            let blocks = parse_blocks(old(receiver).rx(), old(receiver).seq_num()).unwrap();
            &&& r is Ok
            &&& final(into)@ == old(into)@ + received_output(blocks)
            &&& final(receiver).rx() == old(receiver).rx().skip((131 * blocks.len() + 2) as int)
            &&& final(receiver).tx() == old(receiver).tx() + (if old(receiver).handshake_done() {
                Seq::<u8>::empty()
            } else {
                seq![NAK]
            }) + acks(blocks.len() as int) + seq![NAK, ACK]
            &&& final(receiver).handshake_done()
        }),
    decreases old(receiver).rx().len(),
{
    let ghost inc = old(receiver).rx();
    let ghost seq0 = old(receiver).seq_num();
    let ghost st = old(receiver).handshake_done();
    let ghost hyp = old(receiver).reliable() && parse_blocks(inc, seq0) is Some;
    let ghost hyp_can = old(receiver).reliable() && inc.len() > 0 && inc[0] == CAN;
    let ghost hyp_ten = old(receiver).reliable() && bad_frames(inc, 10);
    let ghost hyp_ftc = old(receiver).reliable() && frames_then_cancel(inc, seq0);
    let start_len = into.len();
    let mut pb: Vec<u8> = Vec::new();
    let mut z: usize = 0;
    while z < 128
        invariant
            z <= 128,
            pb@.len() == z,
            forall|k: int| 0 <= k < z ==> pb@[k] == 0u8,
        decreases 128 - z,
    {
        pb.push(0);
        z = z + 1;
    }
    let mut attempt: usize = 0;
    loop
        invariant
            attempt <= 10,
            receiver.reliable() == old(receiver).reliable(),
            receiver.rx().len() <= old(receiver).rx().len(),
            into@ == old(into)@,
            pb@.len() == 128,
            pb@[127] == 0u8,
            hyp ==> {
                &&& receiver.seq_num() == seq0
                &&& receiver.handshake_done() == st
                &&& receiver.rx() == inc
                &&& receiver.tx() == old(receiver).tx()
                &&& attempt == 0
            },
            hyp_can ==> {
                &&& receiver.seq_num() == seq0
                &&& receiver.handshake_done() == st
                &&& receiver.rx() == inc
                &&& receiver.tx() == old(receiver).tx()
                &&& attempt == 0
            },
            hyp_ftc ==> {
                &&& receiver.seq_num() == seq0
                &&& receiver.handshake_done() == st
                &&& receiver.rx() == inc
                &&& receiver.tx() == old(receiver).tx()
                &&& attempt == 0
            },
            hyp_ten ==> (attempt == 0 && receiver.seq_num() == seq0
                && receiver.handshake_done() == st && receiver.rx() == inc) || (attempt > 0
                && receiver.seq_num() == seq0 && receiver.handshake_done() && 131 * attempt
                <= inc.len() && receiver.rx() == inc.skip(131 * attempt) && bad_frames(
                inc.skip(131 * attempt),
                (10 - attempt) as nat,
            )),
        decreases 10 - attempt,
    {
        if attempt >= 10 {
            return Err(XmodemError::TransferFailed);
        }
        let ghost pre_pb = pb@;
        match receiver.read_packet(&mut pb) {
            Ok(n_read) => {
                proof {
                    assert(pb@.skip(127)[0] == pb@[127]);
                    assert(pre_pb.skip(127)[0] == pre_pb[127]);
                }
                if n_read == 0 {
                    proof {
                        if hyp {
                            assert(parse_blocks(inc, seq0).unwrap()
                                =~= Seq::<Seq<u8>>::empty());
                            assert(received_output(Seq::<Seq<u8>>::empty())
                                =~= Seq::<u8>::empty());
                            assert(into@ =~= old(into)@ + Seq::<u8>::empty());
                            assert(receiver.tx() =~= old(receiver).tx() + (if st {
                                Seq::<u8>::empty()
                            } else {
                                seq![NAK]
                            }) + acks(0) + seq![NAK, ACK]);
                        }
                    }
                    return Ok(0);
                } else {
                    proof {
                        if hyp {
                            assert(inc[0] == SOH);
                            assert(inc[1] == seq0);
                            assert(read_frame_writes(st, seq0, inc) =~= (if st {
                                Seq::<u8>::empty()
                            } else {
                                seq![NAK]
                            }));
                        }
                    }
                    let ghost mid_into = into@;
                    let mut j: usize = 0;
                    while j < 128
                        invariant
                            j <= 128,
                            pb@.len() == 128,
                            into@ == mid_into + pb@.take(j as int),
                        decreases 128 - j,
                    {
                        let b = pb[j];
                        into.push(b);
                        proof {
                            assert(into@ =~= mid_into + pb@.take(j + 1));
                        }
                        j = j + 1;
                    }
                    proof {
                        assert(into@ =~= mid_into + pb@);
                        if hyp {
                            assert(pre_pb.skip(127) =~= seq![0u8]);
                            assert(pb@ =~= frame_payload(inc) + seq![0u8]);
                        }
                    }
                    proof {
                        if hyp {
                            assert(inc.len() >= 131 && inc[0] == SOH);
                            assert(!(inc[0] == EOT));
                            assert(parse_blocks(inc.skip(131), next_seq(seq0)) is Some);
                            assert(receiver.rx() == inc.skip(131));
                            assert(receiver.seq_num() == next_seq(seq0));
                            assert(receiver.reliable());
                        }
                        if hyp_ftc {
                            assert(accepted_frame(inc, seq0));
                            assert(frames_then_cancel(inc.skip(131), next_seq(seq0)));
                            assert(receiver.rx() == inc.skip(131));
                            assert(receiver.seq_num() == next_seq(seq0));
                        }
                    }
                    let sub = match receive_blocks(receiver, into) {
                        Ok(s2) => s2,
                        Err(e) => {
                            proof {
                                if hyp_ftc {
                                    let fbc = frames_before_cancel(inc, seq0);
                                    let rest = frames_before_cancel(
                                        inc.skip(131),
                                        next_seq(seq0),
                                    );
                                    assert(fbc =~= seq![frame_payload(inc)] + rest);
                                    assert(fbc[0] == frame_payload(inc));
                                    assert(fbc.skip(1) =~= rest);
                                    assert(received_output(fbc) =~= frame_payload(inc) + seq![
                                        0u8,
                                    ] + received_output(rest));
                                    assert(into@ =~= old(into)@ + received_output(fbc));
                                    assert(receiver.tx() =~= old(receiver).tx() + (if st {
                                        Seq::<u8>::empty()
                                    } else {
                                        seq![NAK]
                                    }) + acks(fbc.len() as int));
                                }
                            }
                            return Err(e);
                        },
                    };
                    let end_len = into.len();
                    proof {
                        if hyp {
                            let blocks = parse_blocks(inc, seq0).unwrap();
                            let rest = parse_blocks(inc.skip(131), next_seq(seq0)).unwrap();
                            assert(blocks =~= seq![frame_payload(inc)] + rest);
                            assert(blocks[0] =~= frame_payload(inc));
                            assert(blocks.skip(1) =~= rest);
                            assert(into@ =~= old(into)@ + received_output(blocks));
                            lemma_parse_blocks_len(inc.skip(131), next_seq(seq0));
                            assert(receiver.rx() =~= inc.skip((131 * blocks.len() + 2) as int));
                            assert(receiver.tx() =~= old(receiver).tx() + (if st {
                                Seq::<u8>::empty()
                            } else {
                                seq![NAK]
                            }) + acks(blocks.len() as int) + seq![NAK, ACK]);
                        }
                    }
                    return Ok(end_len - start_len);
                }
            },
            Err(e) => {
                proof {
                    assert(pb@.skip(127)[0] == pb@[127]);
                    assert(pre_pb.skip(127)[0] == pre_pb[127]);
                    if hyp_ten {
                        if attempt == 0 {
                        } else {
                            let cur = inc.skip(131 * attempt);
                            assert(bad_checksum_frame(cur));
                            assert(cur.skip(131) =~= inc.skip(131 * (attempt + 1)));
                        }
                    }
                    assert(into@.subrange(0, old(into)@.len() as int) =~= old(into)@);
                }
                if e.is_transient_exec() {
                    attempt = attempt + 1;
                } else {
                    return Err(e);
                }
            },
        }
    }
}

impl Xmodem<(), NoopProgress> {
    /// Transmits `data` to the receiver behind `to`. Data is cut into
    /// 128-byte blocks, zero-padded at the end; of each block the first 127
    /// bytes go on the wire. Returns the transport and the number of data
    /// bytes moved, padding excluded.
    ///
    /// Against a cooperative receiver script the contract gives the exact
    /// wire image written: one frame per block, then the end-of-transfer
    /// exchange. A packet the receiver rejects once is retransmitted as the
    /// identical frame under the identical sequence number; ten consecutive
    /// rejections of one packet exhaust the retry budget (`TransferFailed`);
    /// a CANCEL byte anywhere among the responses aborts the transfer at
    /// once, and a checksum mismatch is never surfaced to the caller — it is
    /// retried or becomes `TransferFailed`.
    pub fn transmit<T: Transport>(data: &[u8], to: T) -> (r: (
        T,
        Result<usize, XmodemError>,
    ))
        ensures
            r.0.reliable() == to.reliable(),
            r.1 != Err::<usize, XmodemError>(XmodemError::BufferTooSmall),
            match r.1 {
                Ok(n) => n == data@.len(),
                _ => true,
            },
            (to.reliable() && clean_script(to.incoming(), false, num_blocks(data@) as nat))
                ==> {
                &&& r.1 == Ok::<usize, XmodemError>(data@.len() as usize)
                &&& r.0.sent() == to.sent() + wire(1, tx_blocks(data@))
                &&& r.0.incoming() == to.incoming().skip(3 + 3 * num_blocks(data@))
            },
            r.1 != Err::<usize, XmodemError>(XmodemError::ChecksumMismatch),
            (to.reliable() && to.incoming().len() > 0 && to.incoming()[0] == CAN) ==> r.1
                == Err::<usize, XmodemError>(XmodemError::Aborted),
            (to.reliable() && data@.len() > 0 && to.incoming().len() >= 1 && to.incoming()[0]
                == NAK && nak_groups(to.incoming().skip(1), 10)) ==> r.1 == Err::<
                usize,
                XmodemError,
            >(XmodemError::TransferFailed),
            (to.reliable() && responses_then_cancel(to.incoming(), false, num_blocks(data@) as nat))
                ==> r.1 == Err::<usize, XmodemError>(XmodemError::Aborted),
            (to.reliable() && data@.len() > 0 && one_reject_script(
                to.incoming(),
                false,
                num_blocks(data@) as nat,
            )) ==> {
                &&& r.1 == Ok::<usize, XmodemError>(data@.len() as usize)
                &&& r.0.sent() == to.sent() + frame_of(1, block_payload(data@, 0)) + wire(
                    1,
                    tx_blocks(data@),
                )
            },
    {
        Xmodem::transmit_with_progress(data, to, NoopProgress)
    }

    /// As [`Xmodem::transmit`], reporting progress to `f`.
    pub fn transmit_with_progress<T: Transport, P: ProgressSink>(data: &[u8], to: T, f: P) -> (r:
        (T, Result<usize, XmodemError>))
        ensures
            r.0.reliable() == to.reliable(),
            r.1 != Err::<usize, XmodemError>(XmodemError::BufferTooSmall),
            match r.1 {
                Ok(n) => n == data@.len(),
                _ => true,
            },
            (to.reliable() && clean_script(to.incoming(), false, num_blocks(data@) as nat))
                ==> {
                &&& r.1 == Ok::<usize, XmodemError>(data@.len() as usize)
                &&& r.0.sent() == to.sent() + wire(1, tx_blocks(data@))
                &&& r.0.incoming() == to.incoming().skip(3 + 3 * num_blocks(data@))
            },
            r.1 != Err::<usize, XmodemError>(XmodemError::ChecksumMismatch),
            (to.reliable() && to.incoming().len() > 0 && to.incoming()[0] == CAN) ==> r.1
                == Err::<usize, XmodemError>(XmodemError::Aborted),
            (to.reliable() && data@.len() > 0 && to.incoming().len() >= 1 && to.incoming()[0]
                == NAK && nak_groups(to.incoming().skip(1), 10)) ==> r.1 == Err::<
                usize,
                XmodemError,
            >(XmodemError::TransferFailed),
            (to.reliable() && responses_then_cancel(to.incoming(), false, num_blocks(data@) as nat))
                ==> r.1 == Err::<usize, XmodemError>(XmodemError::Aborted),
            (to.reliable() && data@.len() > 0 && one_reject_script(
                to.incoming(),
                false,
                num_blocks(data@) as nat,
            )) ==> {
                &&& r.1 == Ok::<usize, XmodemError>(data@.len() as usize)
                &&& r.0.sent() == to.sent() + frame_of(1, block_payload(data@, 0)) + wire(
                    1,
                    tx_blocks(data@),
                )
            },
    {
        let mut transmitter = Xmodem::new_with_progress(to, f);
        proof {
            assert(data@.skip(0) =~= data@);
        }
        let res = transmit_blocks(&mut transmitter, data, 0);
        (transmitter.into_inner(), res)
    }

    /// Receives a transfer from the sender behind `from`, appending each
    /// received 128-byte block to `into`. Returns the transport and the
    /// number of bytes appended, a multiple of 128.
    ///
    /// When the incoming bytes are a complete well-formed transfer, the
    /// contract gives the exact bytes appended and the exact acknowledgement
    /// bytes written back. The sink only ever grows, in whole 128-byte
    /// packets. Ten corrupted copies of one packet exhaust the retry budget
    /// (`TransferFailed`) with nothing appended for that packet; a transfer
    /// cut short by a CANCEL byte aborts at once with exactly the completed
    /// packets appended; no transient error is surfaced to the caller.
    pub fn receive<T: Transport>(from: T, into: &mut Vec<u8>) -> (r: (
        T,
        Result<usize, XmodemError>,
    ))
        ensures
            r.0.reliable() == from.reliable(),
            final(into)@.len() >= old(into)@.len(),
            final(into)@.subrange(0, old(into)@.len() as int) == old(into)@,
            (final(into)@.len() - old(into)@.len()) % 128 == 0,
            r.1 != Err::<usize, XmodemError>(XmodemError::BufferTooSmall),
            match r.1 {
                Ok(n) => n % 128 == 0 && final(into)@.len() == old(into)@.len() + n,
                Err(e) => !e.is_transient(),
            },
            (from.reliable() && bad_frames(from.incoming(), 10)) ==> r.1 == Err::<
                usize,
                XmodemError,
            >(XmodemError::TransferFailed) && final(into)@ == old(into)@,
            (from.reliable() && from.incoming().len() > 0 && from.incoming()[0] == CAN) ==> ({
                &&& r.1 == Err::<usize, XmodemError>(XmodemError::Aborted)
                &&& final(into)@ == old(into)@
                &&& r.0.sent() == from.sent() + seq![NAK]
            }),
            (from.reliable() && frames_then_cancel(from.incoming(), 1)) ==> ({
                let fbc = frames_before_cancel(from.incoming(), 1);
                &&& r.1 == Err::<usize, XmodemError>(XmodemError::Aborted)
                &&& final(into)@ == old(into)@ + received_output(fbc)
                &&& r.0.sent() == from.sent() + seq![NAK] + acks(fbc.len() as int)
            }),
            (from.reliable() && parse_blocks(from.incoming(), 1) is Some) ==> ({
                let blocks = parse_blocks(from.incoming(), 1).unwrap();
                &&& r.1 is Ok
                &&& final(into)@ == old(into)@ + received_output(blocks)
                &&& r.0.incoming() == from.incoming().skip((131 * blocks.len() + 2) as int)
                &&& r.0.sent() == from.sent() + seq![NAK] + acks(blocks.len() as int) + seq![
                    NAK,
                    ACK,
                ]
            }),
    {
        Xmodem::receive_with_progress(from, into, NoopProgress)
    }

    /// As [`Xmodem::receive`], reporting progress to `f`.
    pub fn receive_with_progress<T: Transport, P: ProgressSink>(
        from: T,
        into: &mut Vec<u8>,
        f: P,
    ) -> (r: (T, Result<usize, XmodemError>))
        ensures
            r.0.reliable() == from.reliable(),
            final(into)@.len() >= old(into)@.len(),
            final(into)@.subrange(0, old(into)@.len() as int) == old(into)@,
            (final(into)@.len() - old(into)@.len()) % 128 == 0,
            r.1 != Err::<usize, XmodemError>(XmodemError::BufferTooSmall),
            match r.1 {
                Ok(n) => n % 128 == 0 && final(into)@.len() == old(into)@.len() + n,
                Err(e) => !e.is_transient(),
            },
            (from.reliable() && bad_frames(from.incoming(), 10)) ==> r.1 == Err::<
                usize,
                XmodemError,
            >(XmodemError::TransferFailed) && final(into)@ == old(into)@,
            (from.reliable() && from.incoming().len() > 0 && from.incoming()[0] == CAN) ==> ({
                &&& r.1 == Err::<usize, XmodemError>(XmodemError::Aborted)
                &&& final(into)@ == old(into)@
                &&& r.0.sent() == from.sent() + seq![NAK]
            }),
            (from.reliable() && frames_then_cancel(from.incoming(), 1)) ==> ({
                let fbc = frames_before_cancel(from.incoming(), 1);
                &&& r.1 == Err::<usize, XmodemError>(XmodemError::Aborted)
                &&& final(into)@ == old(into)@ + received_output(fbc)
                &&& r.0.sent() == from.sent() + seq![NAK] + acks(fbc.len() as int)
            }),
            (from.reliable() && parse_blocks(from.incoming(), 1) is Some) ==> ({
                let blocks = parse_blocks(from.incoming(), 1).unwrap();
                &&& r.1 is Ok
                &&& final(into)@ == old(into)@ + received_output(blocks)
                &&& r.0.incoming() == from.incoming().skip((131 * blocks.len() + 2) as int)
                &&& r.0.sent() == from.sent() + seq![NAK] + acks(blocks.len() as int) + seq![
                    NAK,
                    ACK,
                ]
            }),
    {
        let mut receiver = Xmodem::new_with_progress(from, f);
        let res = receive_blocks(&mut receiver, into);
        proof {
            if from.reliable() && parse_blocks(from.incoming(), 1) is Some {
                let blocks = parse_blocks(from.incoming(), 1).unwrap();
                assert(receiver.tx() =~= from.sent() + seq![NAK] + acks(blocks.len() as int)
                    + seq![NAK, ACK]);
            }
        }
        (receiver.into_inner(), res)
    }
}

} // verus!
