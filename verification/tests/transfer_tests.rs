use xmodem::InMemoryTransport;
use xmodem::Progress;
use xmodem::ProgressSink;
use xmodem::Xmodem;
use xmodem::XmodemError;
use xmodem::protocol::checksum;

const SOH: u8 = 0x01;
const EOT: u8 = 0x04;
const ACK: u8 = 0x06;
const NAK: u8 = 0x15;
const CAN: u8 = 0x18;

/// The response script a cooperative receiver gives a sender for `n` data
/// packets: the handshake NAK, two echo bytes and an ACK per packet, and
/// the NAK/ACK pair of the end-of-transfer exchange.
fn clean_responses(n: usize) -> Vec<u8> {
    let mut script = vec![NAK];
    for _ in 0..n {
        script.extend_from_slice(&[0, 0, ACK]);
    }
    script.extend_from_slice(&[NAK, ACK]);
    script
}

/// Runs a full transfer over a connected loopback pair: transmit against a
/// cooperative response script, then feed the recorded wire image to a
/// receiver. Returns (bytes transmitted, bytes received, received data).
fn loopback(data: &[u8]) -> (usize, usize, Vec<u8>) {
    let blocks = (data.len() + 127) / 128;
    let sender_side = InMemoryTransport::new(clean_responses(blocks));
    let (sender_side, sent) = Xmodem::transmit(data, sender_side);
    let sent = sent.expect("transmit failed");
    let wire = sender_side.sent_bytes().clone();
    let receiver_side = InMemoryTransport::new(wire);
    let mut output: Vec<u8> = Vec::new();
    let (_receiver_side, received) = Xmodem::receive(receiver_side, &mut output);
    let received = received.expect("receive failed");
    (sent, received, output)
}

#[test]
fn round_trip_small_payload() {
    let data = [1u8, 2, 3, 4, 5];
    let (sent, received, output) = loopback(&data);
    assert_eq!(sent, 5);
    assert_eq!(received, 128);
    assert_eq!(output.len(), 128);
    assert_eq!(&output[..5], &data[..]);
    assert!(output[5..].iter().all(|b| *b == 0));
}

#[test]
fn round_trip_full_block() {
    // A 128-byte payload: the 128th byte is never transmitted and comes
    // back as zero, so a payload whose last byte is zero round-trips whole.
    let mut data = [0xABu8; 128];
    data[127] = 0;
    let (sent, received, output) = loopback(&data);
    assert_eq!(sent, 128);
    assert_eq!(received, 128);
    assert_eq!(&output[..], &data[..]);
}

#[test]
fn round_trip_multi_block() {
    // Three blocks; the 128th byte of each block is dropped on the wire and
    // reconstituted as zero, so those positions hold zero in the payload.
    // No byte of the payload (and no block checksum) is the CANCEL byte,
    // which the protocol cannot carry.
    let mut data = vec![0u8; 300];
    for (i, b) in data.iter_mut().enumerate() {
        *b = ((i % 7) + 1) as u8;
    }
    data[127] = 0;
    data[255] = 0;
    let (sent, received, output) = loopback(&data);
    assert_eq!(sent, 300);
    assert_eq!(received, 384);
    assert_eq!(&output[..300], &data[..]);
    assert!(output[300..].iter().all(|b| *b == 0));
}

#[test]
fn empty_transfer_sends_end_of_transfer_only() {
    let sender_side = InMemoryTransport::new(vec![NAK, NAK, ACK]);
    let (sender_side, sent) = Xmodem::transmit(&[], sender_side);
    assert_eq!(sent, Ok(0));
    assert_eq!(sender_side.sent_bytes(), &vec![EOT, EOT]);
    let receiver_side = InMemoryTransport::new(vec![EOT, EOT]);
    let mut output: Vec<u8> = Vec::new();
    let (_receiver_side, received) = Xmodem::receive(receiver_side, &mut output);
    assert_eq!(received, Ok(0));
    assert!(output.is_empty());
}

#[test]
fn corrupted_checksum_triggers_exactly_one_retry_of_same_packet() {
    // The receiver rejects the first packet once (NAK), then accepts the
    // retransmission: the wire holds the identical frame twice, with the
    // same sequence number.
    let data = [0x42u8; 100];
    let script = vec![NAK, 0, 0, NAK, 0, 0, ACK, NAK, ACK];
    let t = InMemoryTransport::new(script);
    let (t, sent) = Xmodem::transmit(&data, t);
    assert_eq!(sent, Ok(100));
    let wire = t.sent_bytes();
    assert_eq!(wire.len(), 2 * 131 + 2);
    let (first, rest) = wire.split_at(131);
    let (second, eot) = rest.split_at(131);
    assert_eq!(first, second);
    assert_eq!(first[1], 1); // same sequence number, both times
    assert_eq!(eot, &[EOT, EOT]);
}

#[test]
fn retry_budget_exhausted_is_transfer_failed() {
    // Ten rejections of the same packet exhaust the retry budget.
    let data = [7u8; 10];
    let mut script = vec![NAK];
    for _ in 0..10 {
        script.extend_from_slice(&[0, 0, NAK]);
    }
    let t = InMemoryTransport::new(script);
    let (_t, sent) = Xmodem::transmit(&data, t);
    assert_eq!(sent, Err(XmodemError::TransferFailed));
}

#[test]
fn cancel_during_handshake_aborts_transmit() {
    let data = [7u8; 10];
    let t = InMemoryTransport::new(vec![CAN]);
    let (t, sent) = Xmodem::transmit(&data, t);
    assert_eq!(sent, Err(XmodemError::Aborted));
    // The transfer terminates without the end-of-transfer exchange.
    assert_eq!(t.sent_bytes(), &vec![CAN]);
}

#[test]
fn cancel_response_aborts_transmit() {
    let data = [7u8; 10];
    let t = InMemoryTransport::new(vec![NAK, 0, 0, CAN]);
    let (t, sent) = Xmodem::transmit(&data, t);
    assert_eq!(sent, Err(XmodemError::Aborted));
    assert!(!t.sent_bytes().contains(&EOT));
}

#[test]
fn receive_retry_budget_exhausted_is_transfer_failed() {
    // Ten corrupted copies of the same packet exhaust the receive retry
    // budget; nothing is appended to the sink.
    let block = [0x51u8; 127];
    let mut corrupted = vec![SOH, 1, !1u8];
    corrupted.extend_from_slice(&block);
    corrupted.push(checksum(&block).wrapping_add(1));
    let mut wire = Vec::new();
    for _ in 0..10 {
        wire.extend_from_slice(&corrupted);
    }
    let t = InMemoryTransport::new(wire);
    let mut output: Vec<u8> = Vec::new();
    let (_t, received) = Xmodem::receive(t, &mut output);
    assert_eq!(received, Err(XmodemError::TransferFailed));
    assert!(output.is_empty());
}

#[test]
fn receive_abort_mid_transfer_keeps_completed_packets() {
    // One good frame, then a CANCEL instead of the next packet: the abort
    // is surfaced at once and the completed packet stays in the sink.
    let block = [0x61u8; 127];
    let mut wire = vec![SOH, 1, !1u8];
    wire.extend_from_slice(&block);
    wire.push(checksum(&block));
    wire.push(CAN);
    let t = InMemoryTransport::new(wire);
    let mut output: Vec<u8> = Vec::new();
    let (t, received) = Xmodem::receive(t, &mut output);
    assert_eq!(received, Err(XmodemError::Aborted));
    assert_eq!(output.len(), 128);
    assert_eq!(&output[..127], &block[..]);
    // No end-of-transfer handshake happened: only the handshake NAK and the
    // single ACK went out.
    assert_eq!(t.sent_bytes(), &vec![NAK, ACK]);
}

#[test]
fn cancel_after_accepted_packet_aborts_transmit() {
    // The first packet is acknowledged; the receiver answers the second
    // with CANCEL as the verdict. The abort propagates immediately, with
    // no end-of-transfer bytes on the wire.
    let data = [3u8; 200];
    let t = InMemoryTransport::new(vec![NAK, 0, 0, ACK, 0, 0, CAN]);
    let (t, sent) = Xmodem::transmit(&data, t);
    assert_eq!(sent, Err(XmodemError::Aborted));
    // Exactly two frames went out, nothing after the abort.
    assert_eq!(t.sent_bytes().len(), 2 * 131);
    assert!(!t.sent_bytes().contains(&EOT));
}

#[test]
fn cancel_on_wire_aborts_receive() {
    let t = InMemoryTransport::new(vec![CAN]);
    let mut output: Vec<u8> = Vec::new();
    let (t, received) = Xmodem::receive(t, &mut output);
    assert_eq!(received, Err(XmodemError::Aborted));
    assert!(output.is_empty());
    // Only the handshake NAK went out: no acknowledge, no end-of-transfer.
    assert_eq!(t.sent_bytes(), &vec![NAK]);
}

#[test]
fn receive_reassembles_wire_image() {
    // Hand-built wire image of a two-block transfer.
    let block_a = [0x11u8; 127];
    let block_b = [0x22u8; 127];
    let mut wire = vec![SOH, 1, !1u8];
    wire.extend_from_slice(&block_a);
    wire.push(checksum(&block_a));
    wire.extend_from_slice(&[SOH, 2, !2u8]);
    wire.extend_from_slice(&block_b);
    wire.push(checksum(&block_b));
    wire.extend_from_slice(&[EOT, EOT]);
    let t = InMemoryTransport::new(wire);
    let mut output: Vec<u8> = Vec::new();
    let (t, received) = Xmodem::receive(t, &mut output);
    assert_eq!(received, Ok(256));
    assert_eq!(&output[..127], &block_a[..]);
    assert_eq!(output[127], 0);
    assert_eq!(&output[128..255], &block_b[..]);
    assert_eq!(output[255], 0);
    // Handshake, one ACK per block, then the end-of-transfer NAK/ACK.
    assert_eq!(t.sent_bytes(), &vec![NAK, ACK, ACK, NAK, ACK]);
}

struct CountingSink {
    packets: usize,
    started: usize,
    waiting: usize,
    last_seq: u8,
}

impl ProgressSink for CountingSink {
    fn on_progress(&mut self, progress: Progress) {
        match progress {
            Progress::Waiting => self.waiting += 1,
            Progress::Started => self.started += 1,
            Progress::Packet(seq) => {
                self.packets += 1;
                self.last_seq = seq;
            },
        }
    }
}

impl ProgressSink for &mut CountingSink {
    fn on_progress(&mut self, progress: Progress) {
        (**self).on_progress(progress);
    }
}

#[test]
fn transmit_with_progress_reports_events() {
    let data = [9u8; 200];
    let t = InMemoryTransport::new(clean_responses(2));
    let mut sink = CountingSink { packets: 0, started: 0, waiting: 0, last_seq: 0 };
    let (_t, sent) = Xmodem::transmit_with_progress(&data, t, &mut sink);
    assert_eq!(sent, Ok(200));
    // One wait before the handshake; the handshake start plus one start per
    // packet before its payload; one packet event per acknowledged packet.
    assert_eq!(sink.waiting, 1);
    assert_eq!(sink.started, 3);
    assert_eq!(sink.packets, 2);
    assert_eq!(sink.last_seq, 2);
}

#[test]
fn receive_with_progress_reports_events() {
    let block = [0x31u8; 127];
    let mut wire = vec![SOH, 1, !1u8];
    wire.extend_from_slice(&block);
    wire.push(checksum(&block));
    wire.extend_from_slice(&[EOT, EOT]);
    let t = InMemoryTransport::new(wire);
    let mut output: Vec<u8> = Vec::new();
    let mut sink = CountingSink { packets: 0, started: 0, waiting: 0, last_seq: 0 };
    let (_t, received) = Xmodem::receive_with_progress(t, &mut output, &mut sink);
    assert_eq!(received, Ok(128));
    assert_eq!(sink.waiting, 0);
    assert_eq!(sink.started, 1);
    assert_eq!(sink.packets, 1);
    assert_eq!(sink.last_seq, 1);
}
