//! The two multipart commands: message streaming and greedy transaction
//! fragment packing.

use dongle_apdu::sign::{collect_message_fragments, SignMessagePrepare};
use dongle_apdu::trusted_input::{collect_transaction_fragments, GetTrustedInput};

#[test]
fn message_stream_reassembles() {
    let path: Vec<u32> = vec![0x8000002c, 0x80000000];
    let message: Vec<u8> = (0u8..100).collect();
    let apdu_size = 30;
    let mut cmd = SignMessagePrepare::new(path.clone(), message.clone());

    let mut collected: Vec<u8> = Vec::new();
    let mut first = true;
    while let Some(packet) = cmd.encode_next(apdu_size) {
        assert!(packet.len() <= apdu_size);
        assert_eq!(packet[0], 0xe0);
        assert_eq!(packet[1], 0x4e);
        assert_eq!(packet[2], 0x00);
        assert_eq!(packet[4] as usize, packet.len() - 5);
        if first {
            assert_eq!(packet[3], 0x01);
            // length byte, path, then the two-byte total message length
            assert_eq!(packet[5], 2);
            assert_eq!(&packet[6..14], &[0x80, 0x00, 0x00, 0x2c, 0x80, 0x00, 0x00, 0x00]);
            assert_eq!(&packet[14..16], &[0x00, 100]);
            collected.extend_from_slice(&packet[16..]);
            first = false;
        } else {
            assert_eq!(packet[3], 0x80);
            collected.extend_from_slice(&packet[5..]);
        }
        cmd.decode_reply(vec![0x90, 0x00]).expect("intermediate reply");
    }
    assert_eq!(collected, message);
    assert_eq!(cmd.encode_next(apdu_size), None);
}

#[test]
fn empty_message_sends_nothing() {
    let mut cmd = SignMessagePrepare::new(vec![0], vec![]);
    assert_eq!(cmd.encode_next(64), None);
}

#[test]
fn message_fits_one_packet() {
    let mut cmd = SignMessagePrepare::new(vec![0], vec![0xaa, 0xbb]);
    let packet = cmd.encode_next(64).expect("one packet");
    // header, length byte covering path length byte + path + message length
    // + message
    assert_eq!(
        packet,
        vec![0xe0, 0x4e, 0x00, 0x01, 0x09, 0x01, 0x00, 0x00, 0x00, 0x00, 0x00, 0x02, 0xaa, 0xbb]
    );
    assert_eq!(cmd.encode_next(64), None);
}

#[test]
fn trusted_input_greedy_packing() {
    let ser_tx: Vec<u8> = (0u8..50).collect();
    let cuts: Vec<usize> = vec![0, 10, 20, 30, 40, 50];
    let apdu_size = 29;
    let mut cmd = GetTrustedInput::new(ser_tx.clone(), cuts.clone(), 0x01020304);

    let mut packets: Vec<Vec<u8>> = Vec::new();
    while let Some(packet) = cmd.encode_next(apdu_size) {
        assert!(packet.len() < apdu_size);
        assert_eq!(packet[0], 0xe0);
        assert_eq!(packet[1], 0x42);
        assert_eq!(packet[4] as usize, packet.len() - 5);
        cmd.decode_reply(vec![0x90, 0x00]).expect("intermediate reply");
        packets.push(packet);
    }

    // First packet: first-part flag, the output index, one whole fragment
    // (a second would reach the limit).
    assert_eq!(packets[0][2], 0x00);
    assert_eq!(&packets[0][5..9], &[0x01, 0x02, 0x03, 0x04]);
    assert_eq!(&packets[0][9..], &ser_tx[0..10]);
    // Continuations: next-part flag, two whole fragments each.
    assert_eq!(packets[1][2], 0x80);
    assert_eq!(&packets[1][5..], &ser_tx[10..30]);
    assert_eq!(packets[2][2], 0x80);
    assert_eq!(&packets[2][5..], &ser_tx[30..50]);
    assert_eq!(packets.len(), 3);

    // Every transaction byte crosses the wire exactly once, in order.
    let mut collected: Vec<u8> = Vec::new();
    collected.extend_from_slice(&packets[0][9..]);
    collected.extend_from_slice(&packets[1][5..]);
    collected.extend_from_slice(&packets[2][5..]);
    assert_eq!(collected, ser_tx);
}

#[test]
fn collect_message_fragments_reassembles() {
    let message: Vec<u8> = (0u8..200).collect();
    let mut cmd = SignMessagePrepare::new(vec![1, 2], message.clone());
    let collected = collect_message_fragments(&mut cmd, 40);
    assert_eq!(collected, message);
}

#[test]
fn collect_transaction_fragments_reassembles() {
    let ser_tx: Vec<u8> = (0u8..30).collect();
    let cuts: Vec<usize> = vec![0, 5, 12, 20, 30];
    let mut cmd = GetTrustedInput::new(ser_tx.clone(), cuts, 1);
    let collected = collect_transaction_fragments(&mut cmd, 25);
    assert_eq!(collected, ser_tx);
}

#[test]
fn trusted_input_empty_transaction() {
    let mut cmd = GetTrustedInput::new(vec![], vec![0], 0);
    assert_eq!(cmd.encode_next(64), None);
    assert_eq!(cmd.into_reply(), (0, vec![]));
}

#[test]
fn trusted_input_keeps_last_reply() {
    let mut cmd = GetTrustedInput::new(vec![1, 2, 3], vec![0, 3], 7);
    assert!(cmd.encode_next(64).is_some());
    assert!(cmd.decode_reply(vec![0x61, 0x62, 0x90, 0x00]).is_ok());
    assert_eq!(cmd.encode_next(64), None);
    assert_eq!(cmd.into_reply(), (0x9000, vec![0x61, 0x62]));
}
