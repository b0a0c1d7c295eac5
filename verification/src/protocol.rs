//! The mathematical model of the wire protocol: control bytes, the packet
//! checksum, frame shapes, and the full wire image of a transfer.
//!
//! Every contract of the engine and of the transfer drivers is stated over
//! these functions, so that what a packet exchange consumes, writes and
//! returns is pinned down as a function of the byte sequence the peer sends.

use vstd::prelude::*;

verus! {

/// Start of a 128-byte data packet.
pub const SOH: u8 = 0x01;

/// End of transfer.
pub const EOT: u8 = 0x04;

/// Positive acknowledge.
pub const ACK: u8 = 0x06;

/// Negative acknowledge; also the receiver's "ready" handshake byte.
pub const NAK: u8 = 0x15;

/// Cancel.
pub const CAN: u8 = 0x18;

/// The unsigned 8-bit sum of a byte sequence, wrapping on overflow: the
/// packet checksum.
pub open spec fn checksum_spec(s: Seq<u8>) -> u8
    decreases s.len(),
{
    if s.len() == 0 {
        0u8
    } else {
        ((checksum_spec(s.drop_last()) + s.last()) % 256) as u8
    }
}

/// Computes the packet checksum: the unsigned 8-bit sum of `data`, wrapping
/// on overflow.
pub fn checksum(data: &[u8]) -> (c: u8)
    ensures
        c == checksum_spec(data@),
{
    let mut c: u8 = 0;
    let mut i: usize = 0;
    while i < data.len()
        invariant
            0 <= i <= data@.len(),
            c == checksum_spec(data@.take(i as int)),
        decreases data@.len() - i,
    {
        proof {
            assert(data@.take(i + 1).drop_last() =~= data@.take(i as int));
            assert(data@.take(i + 1).last() == data@[i as int]);
        }
        c = ((c as u16 + data[i] as u16) % 256) as u8;
        i = i + 1;
    }
    proof {
        assert(data@.take(data@.len() as int) =~= data@);
    }
    c
}

/// The sequence number that follows `s`: one more, wrapping from 255 to 0.
pub open spec fn next_seq(s: u8) -> u8 {
    ((s + 1) % 256) as u8
}

/// True when no byte of `s` is the CANCEL sentinel. A read performed with
/// cancellation-abort enabled fails with `Aborted` on any CANCEL byte, so
/// only such sequences pass through a packet exchange.
pub open spec fn no_can(s: Seq<u8>) -> bool {
    forall|i: int| 0 <= i < s.len() ==> s[i] != CAN
}

/// The 127-byte payload carried by a data frame at the head of `inc`.
pub open spec fn frame_payload(inc: Seq<u8>) -> Seq<u8> {
    inc.subrange(3, 130)
}

/// `inc` starts with a complete, well-checksummed data frame that a receiver
/// consumes without aborting: the start-of-header byte, two sequence bytes
/// that are not CANCEL, 127 payload bytes and a checksum byte that are not
/// CANCEL, with the checksum byte equal to the payload checksum.
///
/// The two sequence bytes need not match the receiver's own counter: a
/// mismatch there makes the receiver signal CANCEL to the peer but the
/// exchange still proceeds.
pub open spec fn good_frame(inc: Seq<u8>) -> bool {
    &&& inc.len() >= 131
    &&& inc[0] == SOH
    &&& inc[1] != CAN
    &&& inc[2] != CAN
    &&& no_can(inc.subrange(3, 131))
    &&& inc[130] == checksum_spec(frame_payload(inc))
}

/// `inc` starts with a complete data frame whose trailing checksum byte is
/// wrong: the receiver answers NAK and reports a checksum mismatch.
pub open spec fn bad_checksum_frame(inc: Seq<u8>) -> bool {
    &&& inc.len() >= 131
    &&& inc[0] == SOH
    &&& inc[1] != CAN
    &&& inc[2] != CAN
    &&& no_can(inc.subrange(3, 131))
    &&& inc[130] != checksum_spec(frame_payload(inc))
}

/// `inc` starts with the receiver's side of the end-of-transfer exchange:
/// the end-of-transfer byte twice.
pub open spec fn eot_frame(inc: Seq<u8>) -> bool {
    inc.len() >= 2 && inc[0] == EOT && inc[1] == EOT
}

/// `inc` starts like a data frame, but a CANCEL byte stands at one of the
/// positions the receiver reads with cancellation-abort enabled — a
/// sequence byte, a payload byte or the checksum byte — with no CANCEL
/// before it: the receiver aborts there.
pub open spec fn frame_with_cancel(inc: Seq<u8>) -> bool {
    &&& inc.len() >= 1
    &&& inc[0] == SOH
    &&& exists|p: int|
        1 <= p < 131 && p < inc.len() && inc[p] == CAN && (forall|q: int|
            1 <= q < p ==> inc[q] != CAN)
}

/// The bytes a receiver writes before the verdict of a data-frame exchange:
/// the handshake NAK if the handshake has not started yet, then one CANCEL
/// for each of the two sequence bytes that does not match its own counter.
pub open spec fn read_frame_writes(started: bool, seq: u8, inc: Seq<u8>) -> Seq<u8> {
    (if started { Seq::<u8>::empty() } else { seq![NAK] })
        + (if inc[1] != seq { seq![CAN] } else { Seq::<u8>::empty() })
        + (if inc[2] != !seq { seq![CAN] } else { Seq::<u8>::empty() })
}

/// The 131-byte wire image of one data packet: start-of-header, the sequence
/// number, its one's complement, the 127 payload bytes, the checksum.
pub open spec fn frame_of(seq: u8, payload: Seq<u8>) -> Seq<u8>
    recommends
        payload.len() == 127,
{
    seq![SOH, seq, !seq] + payload + seq![checksum_spec(payload)]
}

/// The full wire image of a transfer that starts at sequence number `seq`:
/// one frame per 127-byte block, then the end-of-transfer byte twice.
pub open spec fn wire(seq: u8, blocks: Seq<Seq<u8>>) -> Seq<u8>
    decreases blocks.len(),
{
    if blocks.len() == 0 {
        seq![EOT, EOT]
    } else {
        frame_of(seq, blocks[0]) + wire(next_seq(seq), blocks.skip(1))
    }
}

/// The number of 128-byte blocks a transmitter cuts `data` into: the length
/// divided by 128, rounded up.
pub open spec fn num_blocks(data: Seq<u8>) -> int {
    ((data.len() + 127) as int) / 128
}

/// The 127-byte payload a transmitter sends for block `i` of `data`: the
/// first 127 bytes of the 128-byte block, zero-padded past the end of the
/// data. The 128th byte of each block is never transmitted: the receiver
/// reconstitutes it as zero.
pub open spec fn block_payload(data: Seq<u8>, i: int) -> Seq<u8> {
    Seq::new(127, |j: int| if 128 * i + j < data.len() { data[128 * i + j] } else { 0u8 })
}

/// The payloads of every block of `data`, in transmission order.
pub open spec fn tx_blocks(data: Seq<u8>) -> Seq<Seq<u8>> {
    Seq::new(num_blocks(data) as nat, |i: int| block_payload(data, i))
}

/// The bytes a receiver appends to its sink for these blocks: each 127-byte
/// payload followed by one zero byte, 128 bytes per block.
pub open spec fn received_output(blocks: Seq<Seq<u8>>) -> Seq<u8>
    decreases blocks.len(),
{
    if blocks.len() == 0 {
        Seq::<u8>::empty()
    } else {
        blocks[0] + seq![0u8] + received_output(blocks.skip(1))
    }
}

/// An incoming byte sequence from which a sender with handshake state
/// `started` reads every response a cooperative receiver gives for `n` data
/// packets followed by the end-of-transfer exchange: the handshake NAK if
/// the handshake has not started yet, then per packet two echo bytes that
/// are not CANCEL and an ACK, then the NAK/ACK pair of the end-of-transfer
/// exchange.
pub open spec fn clean_script(inc: Seq<u8>, started: bool, n: nat) -> bool
    decreases n, hs_off(started),
{
    if !started {
        inc.len() >= 1 && inc[0] == NAK && clean_script(inc.skip(1), true, n)
    } else if n == 0 {
        inc.len() >= 2 && inc[0] == NAK && inc[1] == ACK
    } else {
        inc.len() >= 3 && inc[0] != CAN && inc[1] != CAN && inc[2] == ACK && clean_script(
            inc.skip(3),
            true,
            (n - 1) as nat,
        )
    }
}

/// `m` consecutive per-packet response groups that each reject the packet:
/// two echo bytes that are not CANCEL, then a NAK verdict. What a sender
/// reads while the receiver keeps asking for the same packet again.
pub open spec fn nak_groups(inc: Seq<u8>, m: nat) -> bool
    decreases m,
{
    if m == 0 {
        true
    } else {
        &&& inc.len() >= 3
        &&& inc[0] != CAN
        &&& inc[1] != CAN
        &&& inc[2] == NAK
        &&& nak_groups(inc.skip(3), (m - 1) as nat)
    }
}

/// A response script in which the first packet is rejected once (two echo
/// bytes and a NAK verdict) and everything after — the accepting group for
/// that same packet, the remaining packets and the end-of-transfer
/// exchange — is a clean script for `n` packets.
pub open spec fn one_reject_script(inc: Seq<u8>, started: bool, n: nat) -> bool {
    &&& (!started ==> inc.len() >= 1 && inc[0] == NAK)
    &&& ({
        let rest = inc.skip(hs_off(started));
        &&& rest.len() >= 3
        &&& rest[0] != CAN
        &&& rest[1] != CAN
        &&& rest[2] == NAK
        &&& clean_script(rest.skip(3), true, n)
    })
}

/// `m` consecutive complete data frames whose trailing checksum byte is
/// wrong: what a receiver reads while every copy of a packet arrives
/// corrupted.
pub open spec fn bad_frames(inc: Seq<u8>, m: nat) -> bool
    decreases m,
{
    if m == 0 {
        true
    } else {
        bad_checksum_frame(inc) && bad_frames(inc.skip(131), (m - 1) as nat)
    }
}

/// A clean response script is long enough to cover the handshake, the
/// three response bytes of each packet and the end-of-transfer pair.
pub proof fn lemma_clean_script_len(inc: Seq<u8>, started: bool, n: nat)
    requires
        clean_script(inc, started, n),
    ensures
        inc.len() >= hs_off(started) + 3 * n + 2,
    decreases n, hs_off(started),
{
    if !started {
        lemma_clean_script_len(inc.skip(1), true, n);
    } else if n > 0 {
        lemma_clean_script_len(inc.skip(3), true, (n - 1) as nat);
    }
}

/// The blocks a receiver at sequence number `seq` reassembles from `inc`
/// without ever cancelling, when `inc` starts with a complete well-formed
/// transfer: data frames whose sequence bytes match the receiver's counter,
/// ending with the end-of-transfer exchange. `None` when `inc` is anything
/// else; bytes past the end-of-transfer exchange are ignored.
pub open spec fn parse_blocks(inc: Seq<u8>, seq: u8) -> Option<Seq<Seq<u8>>>
    decreases inc.len(),
{
    if inc.len() >= 2 && inc[0] == EOT && inc[1] == EOT {
        Some(Seq::<Seq<u8>>::empty())
    } else if inc.len() >= 131 && inc[0] == SOH && inc[1] == seq && seq != CAN && inc[2] == !seq
        && !seq != CAN && no_can(inc.subrange(3, 131)) && inc[130] == checksum_spec(
        frame_payload(inc),
    ) {
        match parse_blocks(inc.skip(131), next_seq(seq)) {
            Some(rest) => Some(seq![frame_payload(inc)] + rest),
            None => None,
        }
    } else {
        None
    }
}

/// A parseable transfer is long enough to cover each 131-byte frame and
/// the end-of-transfer pair.
pub proof fn lemma_parse_blocks_len(inc: Seq<u8>, seq: u8)
    requires
        parse_blocks(inc, seq) is Some,
    ensures
        inc.len() >= 131 * parse_blocks(inc, seq).unwrap().len() + 2,
    decreases inc.len(),
{
    if inc.len() >= 2 && inc[0] == EOT && inc[1] == EOT {
    } else {
        lemma_parse_blocks_len(inc.skip(131), next_seq(seq));
    }
}

/// `inc` starts with a data frame the receiver accepts and acknowledges
/// without cancelling: well-checksummed, with sequence bytes that match the
/// receiver's counter `seq`.
pub open spec fn accepted_frame(inc: Seq<u8>, seq: u8) -> bool {
    &&& inc.len() >= 131
    &&& inc[0] == SOH
    &&& inc[1] == seq
    &&& seq != CAN
    &&& inc[2] == !seq
    &&& !seq != CAN
    &&& no_can(inc.subrange(3, 131))
    &&& inc[130] == checksum_spec(frame_payload(inc))
}

/// A well-formed transfer cut short by the peer: some number of accepted
/// frames, then a CANCEL byte where the next control byte was due.
pub open spec fn frames_then_cancel(inc: Seq<u8>, seq: u8) -> bool
    decreases inc.len(),
{
    if inc.len() > 0 && inc[0] == CAN {
        true
    } else if accepted_frame(inc, seq) {
        frames_then_cancel(inc.skip(131), next_seq(seq))
    } else {
        false
    }
}

/// The payloads of the accepted frames that precede the CANCEL byte of a
/// transfer cut short by the peer.
pub open spec fn frames_before_cancel(inc: Seq<u8>, seq: u8) -> Seq<Seq<u8>>
    decreases inc.len(),
{
    if inc.len() > 0 && inc[0] == CAN {
        Seq::<Seq<u8>>::empty()
    } else if accepted_frame(inc, seq) {
        seq![frame_payload(inc)] + frames_before_cancel(inc.skip(131), next_seq(seq))
    } else {
        Seq::<Seq<u8>>::empty()
    }
}

/// A response script cut short by the peer: the handshake NAK if the
/// handshake has not started, then accepting response groups for some of
/// the `n` packets, then a CANCEL byte at one of the positions the sender
/// reads — an echo byte, the verdict byte, or a byte of the end-of-transfer
/// exchange.
pub open spec fn responses_then_cancel(inc: Seq<u8>, started: bool, n: nat) -> bool
    decreases n, hs_off(started),
{
    if !started {
        inc.len() >= 1 && inc[0] == NAK && responses_then_cancel(inc.skip(1), true, n)
    } else if n == 0 {
        (inc.len() >= 1 && inc[0] == CAN) || (inc.len() >= 2 && inc[0] == NAK && inc[1]
            == CAN)
    } else {
        ||| inc.len() >= 1 && inc[0] == CAN
        ||| inc.len() >= 2 && inc[0] != CAN && inc[1] == CAN
        ||| inc.len() >= 3 && inc[0] != CAN && inc[1] != CAN && inc[2] == CAN
        ||| inc.len() >= 3 && inc[0] != CAN && inc[1] != CAN && inc[2] == ACK
            && responses_then_cancel(inc.skip(3), true, (n - 1) as nat)
    }
}

/// `n` ACK bytes: what a receiver answers for `n` accepted data packets.
pub open spec fn acks(n: int) -> Seq<u8> {
    Seq::new(n as nat, |i: int| ACK)
}

/// The number of incoming bytes a sender consumes for the handshake before
/// its first packet: one (the receiver's NAK) if the handshake has not
/// started yet, none otherwise.
pub open spec fn hs_off(started: bool) -> int {
    if started {
        0
    } else {
        1
    }
}

/// `data` zero-padded to a whole number of 128-byte blocks.
pub open spec fn padded(data: Seq<u8>) -> Seq<u8> {
    data + Seq::new((128 * num_blocks(data) - data.len()) as nat, |j: int| 0u8)
}

} // verus!
