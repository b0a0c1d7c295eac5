use xmodem::InMemoryTransport;
use xmodem::TransportError;
use xmodem::Xmodem;
use xmodem::XmodemError;
use xmodem::protocol::checksum;

const SOH: u8 = 0x01;
const EOT: u8 = 0x04;
const ACK: u8 = 0x06;
const NAK: u8 = 0x15;
const CAN: u8 = 0x18;

/// The 131-byte wire image of one data frame.
fn frame(seq: u8, payload: &[u8]) -> Vec<u8> {
    assert_eq!(payload.len(), 127);
    let mut f = vec![SOH, seq, !seq];
    f.extend_from_slice(payload);
    f.push(checksum(payload));
    f
}

#[test]
fn checksum_is_wrapping_sum() {
    // 127 bytes of 255: (127 * 255) mod 256 = 129.
    let payload = [255u8; 127];
    assert_eq!(checksum(&payload), 129);
    assert_eq!(checksum(&[]), 0);
    assert_eq!(checksum(&[1, 2, 3]), 6);
    assert_eq!(checksum(&[200, 100]), 44);
}

#[test]
fn read_packet_short_buffer_fails_without_io() {
    let t = InMemoryTransport::new(vec![SOH, 1, 0xFE]);
    let mut engine = Xmodem::new(t);
    let mut buf = vec![0u8; 64];
    let r = engine.read_packet(&mut buf);
    assert!(matches!(r, Err(XmodemError::BufferTooSmall)));
    // No byte was read or written.
    let t = engine.into_inner();
    assert!(t.sent_bytes().is_empty());
}

#[test]
fn write_packet_short_buffer_fails() {
    let t = InMemoryTransport::new(vec![NAK]);
    let mut engine = Xmodem::new(t);
    let buf = vec![0u8; 64];
    let r = engine.write_packet(&buf);
    assert!(matches!(r, Err(XmodemError::BufferTooSmall)));
    let t = engine.into_inner();
    assert!(t.sent_bytes().is_empty());
}

#[test]
fn read_packet_accepts_good_frame() {
    let payload = [7u8; 127];
    let t = InMemoryTransport::new(frame(1, &payload));
    let mut engine = Xmodem::new(t);
    let mut buf = vec![0xAAu8; 128];
    let r = engine.read_packet(&mut buf);
    assert_eq!(r, Ok(128));
    assert_eq!(&buf[..127], &payload[..]);
    // The 128th byte of the caller's buffer is untouched.
    assert_eq!(buf[127], 0xAA);
    let t = engine.into_inner();
    // Handshake NAK, then ACK; no CANCEL: the sequence bytes matched.
    assert_eq!(t.sent_bytes(), &vec![NAK, ACK]);
}

#[test]
fn read_packet_checksum_mismatch_then_same_packet_retries() {
    let payload = [9u8; 127];
    let mut script = frame(1, &payload);
    let last = script.len() - 1;
    script[last] = script[last].wrapping_add(1);  // corrupt the checksum
    script.extend_from_slice(&frame(1, &payload));  // the sender repeats packet 1
    let t = InMemoryTransport::new(script);
    let mut engine = Xmodem::new(t);
    let mut buf = vec![0u8; 128];
    let r = engine.read_packet(&mut buf);
    assert!(matches!(r, Err(XmodemError::ChecksumMismatch)));
    // The sequence number is unchanged: the repeated packet 1 is accepted.
    let r = engine.read_packet(&mut buf);
    assert_eq!(r, Ok(128));
    assert_eq!(&buf[..127], &payload[..]);
    let t = engine.into_inner();
    // NAK handshake, NAK reject, ACK accept; no CANCEL was written.
    assert_eq!(t.sent_bytes(), &vec![NAK, NAK, ACK]);
}

#[test]
fn read_packet_end_of_transfer() {
    let t = InMemoryTransport::new(vec![EOT, EOT]);
    let mut engine = Xmodem::new(t);
    let mut buf = vec![0u8; 128];
    let r = engine.read_packet(&mut buf);
    assert_eq!(r, Ok(0));
    let t = engine.into_inner();
    assert_eq!(t.sent_bytes(), &vec![NAK, NAK, ACK]);
}

#[test]
fn read_packet_invalid_first_byte() {
    let t = InMemoryTransport::new(vec![0x7F]);
    let mut engine = Xmodem::new(t);
    let mut buf = vec![0u8; 128];
    let r = engine.read_packet(&mut buf);
    assert!(matches!(r, Err(XmodemError::InvalidProtocolByte(_))));
}

#[test]
fn read_packet_eot_then_wrong_byte() {
    let t = InMemoryTransport::new(vec![EOT, 0x55]);
    let mut engine = Xmodem::new(t);
    let mut buf = vec![0u8; 128];
    let r = engine.read_packet(&mut buf);
    assert!(matches!(r, Err(XmodemError::InvalidProtocolByte(_))));
}

#[test]
fn read_packet_cancel_aborts() {
    let t = InMemoryTransport::new(vec![CAN]);
    let mut engine = Xmodem::new(t);
    let mut buf = vec![0u8; 128];
    let r = engine.read_packet(&mut buf);
    assert!(matches!(r, Err(XmodemError::Aborted)));
}

#[test]
fn read_packet_cancel_in_payload_aborts() {
    let mut payload = [3u8; 127];
    payload[50] = CAN;
    let mut wire_bytes = vec![SOH, 1, 0xFE];
    wire_bytes.extend_from_slice(&payload);
    wire_bytes.push(0);
    let t = InMemoryTransport::new(wire_bytes);
    let mut engine = Xmodem::new(t);
    let mut buf = vec![0u8; 128];
    let r = engine.read_packet(&mut buf);
    assert!(matches!(r, Err(XmodemError::Aborted)));
}

#[test]
fn write_packet_sends_frame_and_advances() {
    let payload_block = [5u8; 128];
    // Handshake NAK, two echo bytes, ACK.
    let t = InMemoryTransport::new(vec![NAK, 0, 0, ACK]);
    let mut engine = Xmodem::new(t);
    let r = engine.write_packet(&payload_block);
    assert_eq!(r, Ok(128));
    let t = engine.into_inner();
    assert_eq!(t.sent_bytes(), &frame(1, &payload_block[..127]));
}

#[test]
fn write_packet_nak_response_is_checksum_mismatch() {
    let payload_block = [5u8; 128];
    let t = InMemoryTransport::new(vec![NAK, 0, 0, NAK]);
    let mut engine = Xmodem::new(t);
    let r = engine.write_packet(&payload_block);
    assert!(matches!(r, Err(XmodemError::ChecksumMismatch)));
}

#[test]
fn write_packet_cancel_response_aborts() {
    let payload_block = [5u8; 128];
    let t = InMemoryTransport::new(vec![NAK, 0, 0, CAN]);
    let mut engine = Xmodem::new(t);
    let r = engine.write_packet(&payload_block);
    assert!(matches!(r, Err(XmodemError::Aborted)));
}

#[test]
fn write_packet_handshake_cancel_aborts_and_echoes_cancel() {
    let payload_block = [5u8; 128];
    let t = InMemoryTransport::new(vec![CAN]);
    let mut engine = Xmodem::new(t);
    let r = engine.write_packet(&payload_block);
    assert!(matches!(r, Err(XmodemError::Aborted)));
    let t = engine.into_inner();
    // The engine answers the peer's CANCEL with its own CANCEL and no more:
    // the end-of-transfer handshake never happens.
    assert_eq!(t.sent_bytes(), &vec![CAN]);
}

#[test]
fn write_packet_handshake_garbage_writes_cancel() {
    let payload_block = [5u8; 128];
    let t = InMemoryTransport::new(vec![0x33]);
    let mut engine = Xmodem::new(t);
    let r = engine.write_packet(&payload_block);
    assert!(matches!(r, Err(XmodemError::InvalidProtocolByte(_))));
    let t = engine.into_inner();
    assert_eq!(t.sent_bytes(), &vec![CAN]);
}

#[test]
fn sequence_number_wraps_after_255() {
    // 257 acknowledged packets: the frame sequence bytes on the wire must
    // run 1, 2, ..., 255, 0, 1.
    let mut script = vec![NAK];
    for _ in 0..257 {
        script.extend_from_slice(&[0, 0, ACK]);
    }
    let t = InMemoryTransport::new(script);
    let mut engine = Xmodem::new(t);
    let block = [1u8; 128];
    for _ in 0..257 {
        let r = engine.write_packet(&block);
        assert_eq!(r, Ok(128));
    }
    let t = engine.into_inner();
    let sent = t.sent_bytes();
    assert_eq!(sent.len(), 257 * 131);
    for k in 0..257usize {
        let expected_seq = ((1 + k) % 256) as u8;
        assert_eq!(sent[k * 131], SOH);
        assert_eq!(sent[k * 131 + 1], expected_seq);
        assert_eq!(sent[k * 131 + 2], !expected_seq);
    }
    // Packet 256 carries sequence number 0, packet 257 wraps back to 1.
    assert_eq!(sent[255 * 131 + 1], 0);
    assert_eq!(sent[256 * 131 + 1], 1);
}

#[test]
fn truncated_stream_is_transport_error() {
    // The wire ends in the middle of a frame: the in-memory transport
    // reports a read failure, surfaced unchanged as a transport error.
    let t = InMemoryTransport::new(vec![SOH, 1, 0xFE, 9, 9]);
    let mut engine = Xmodem::new(t);
    let mut buf = vec![0u8; 128];
    let r = engine.read_packet(&mut buf);
    assert_eq!(r, Err(XmodemError::Transport(TransportError::Failed)));
}

#[test]
fn flush_succeeds() {
    let t = InMemoryTransport::new(vec![]);
    let mut engine = Xmodem::new(t);
    assert!(engine.flush().is_ok());
}

#[test]
fn transport_error_is_transient_only_when_interrupted() {
    assert!(XmodemError::ChecksumMismatch.is_transient_exec());
    assert!(XmodemError::Transport(TransportError::Interrupted).is_transient_exec());
    assert!(!XmodemError::Transport(TransportError::Failed).is_transient_exec());
    assert!(!XmodemError::Aborted.is_transient_exec());
    assert!(!XmodemError::BufferTooSmall.is_transient_exec());
    assert!(!XmodemError::TransferFailed.is_transient_exec());
}
