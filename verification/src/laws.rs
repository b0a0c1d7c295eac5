//! The round-trip law: the wire image a transmitter writes for a payload is
//! exactly a transfer a receiver accepts, and the receiver's output is the
//! payload zero-padded to a whole block.

use vstd::prelude::*;

verus! {

use crate::protocol::CAN;
use crate::protocol::EOT;
use crate::protocol::SOH;
use crate::protocol::block_payload;
use crate::protocol::checksum_spec;
use crate::protocol::frame_of;
use crate::protocol::frame_payload;
use crate::protocol::next_seq;
use crate::protocol::num_blocks;
use crate::protocol::padded;
use crate::protocol::parse_blocks;
use crate::protocol::received_output;
use crate::protocol::tx_blocks;
use crate::protocol::wire;
use vstd::arithmetic::div_mod::lemma_fundamental_div_mod_converse_div;

/// Round trip for single-block payloads: transmitting `data` (1 to 128
/// bytes) writes the wire image `wire(1, tx_blocks(data))`; a fresh receiver
/// parses exactly that transfer back, and what it appends to its sink is
/// `data` zero-padded to 128 bytes.
///
/// Together with the contracts of `Xmodem::transmit` (which writes exactly
/// this wire image against a clean response script) and `Xmodem::receive`
/// (which appends exactly `received_output` of the parsed blocks), this
/// states that transmit-then-receive over a connected pair reproduces the
/// payload, zero-padded to a whole block.
///
/// The protocol cannot carry every payload: a CANCEL byte among the
/// transmitted bytes, or a block checksum equal to the CANCEL byte, aborts
/// the receiver, and the 128th byte of a block is never transmitted, so
/// those payloads are excluded here.
pub proof fn lemma_round_trip_one_block(data: Seq<u8>)
    requires
        0 < data.len() <= 128,
        forall|i: int| 0 <= i < data.len() && i < 127 ==> data[i] != CAN,
        checksum_spec(block_payload(data, 0)) != CAN,
        data.len() == 128 ==> data[127] == 0,
    ensures
        num_blocks(data) == 1,
        parse_blocks(wire(1, tx_blocks(data)), 1) == Some(tx_blocks(data)),
        received_output(tx_blocks(data)) == padded(data),
{
    lemma_fundamental_div_mod_converse_div((data.len() + 127) as int, 128, 1, data.len() - 1);
    assert(num_blocks(data) == 1);
    let b0 = block_payload(data, 0);
    let blocks = tx_blocks(data);
    assert(blocks.len() == 1);
    assert(blocks[0] == b0);
    let f = frame_of(1u8, b0);
    let w = wire(1u8, blocks);
    assert(wire(next_seq(1u8), blocks.skip(1)) =~= seq![EOT, EOT]);
    assert(w =~= f + seq![EOT, EOT]);
    assert(f.len() == 131);
    assert(w.len() == 133);
    assert(w[0] == SOH);
    assert(w[1] == 1u8);
    assert(w[2] == !1u8);
    assert(!1u8 != CAN) by (bit_vector);
    assert(forall|j: int| 0 <= j < 127 ==> w[3 + j] == b0[j]);
    assert(w[130] == checksum_spec(b0));
    assert(frame_payload(w) =~= b0);
    assert forall|j: int| 0 <= j < 128 implies w.subrange(3, 131)[j] != CAN by {
        assert(w.subrange(3, 131)[j] == w[3 + j]);
        if j < 127 {
            assert(w[3 + j] == b0[j]);
            if j < data.len() {
                assert(b0[j] == data[j]);
            } else {
                assert(b0[j] == 0u8);
            }
        } else {
            assert(w[130] == checksum_spec(b0));
        }
    }
    assert(w.skip(131) =~= seq![EOT, EOT]);
    assert(parse_blocks(w.skip(131), next_seq(1u8)) == Some(Seq::<Seq<u8>>::empty()));
    assert(parse_blocks(w, 1u8) == Some(seq![frame_payload(w)] + Seq::<Seq<u8>>::empty()));
    assert(seq![frame_payload(w)] + Seq::<Seq<u8>>::empty() =~= blocks);
    assert(received_output(blocks.skip(1)) =~= Seq::<u8>::empty());
    assert(received_output(blocks) =~= b0 + seq![0u8]);
    assert forall|j: int| 0 <= j < 128 implies (b0 + seq![0u8])[j] == padded(data)[j] by {
        if j < 127 {
            assert((b0 + seq![0u8])[j] == b0[j]);
        }
        if j < data.len() {
            assert(padded(data)[j] == data[j]);
        } else {
            assert(padded(data)[j] == 0u8);
        }
    }
    assert(received_output(blocks) =~= padded(data));
}

} // verus!
