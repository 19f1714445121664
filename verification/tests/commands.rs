//! Single-packet commands and the shared reply handling.

use dongle_apdu::error::ApduError;
use dongle_apdu::firmware::GetFirmwareVersion;
use dongle_apdu::random::GetRandom;
use dongle_apdu::sign::{SignMessagePrepare, SignMessageSign};
use dongle_apdu::trusted_input::GetTrustedInput;
use dongle_apdu::wallet::GetWalletPublicKey;

#[test]
fn firmware_version_single_shot() {
    let mut cmd = GetFirmwareVersion::new();
    let packet = cmd.encode_next(64).expect("first call must emit a packet");
    assert_eq!(packet, vec![0xe0, 0xc4, 0x00, 0x00, 0x00]);
    assert_eq!(cmd.encode_next(64), None);
}

#[test]
fn wallet_public_key_single_shot() {
    let mut cmd = GetWalletPublicKey::new(vec![0x8000002c]);
    let packet = cmd.encode_next(64).expect("first call must emit a packet");
    assert_eq!(packet, vec![0xe0, 0x40, 0x00, 0x00, 0x05, 0x01, 0x80, 0x00, 0x00, 0x2c]);
    assert_eq!(cmd.encode_next(64), None);
}

#[test]
fn random_request_packet() {
    let mut cmd = GetRandom::new(5);
    let packet = cmd.encode_next(64).expect("first call must emit a packet");
    assert_eq!(packet, vec![0xe0, 0xc0, 0x00, 0x00, 0x05]);
    assert_eq!(cmd.encode_next(64), None);
}

#[test]
fn sign_message_sign_packet() {
    let mut cmd = SignMessageSign::new();
    let packet = cmd.encode_next(64).expect("first call must emit a packet");
    assert_eq!(packet, vec![0xe0, 0x4e, 0x80, 0x00, 0x01, 0x00]);
    assert_eq!(cmd.encode_next(64), None);
}

#[test]
fn status_word_only_reply() {
    let mut fw = GetFirmwareVersion::new();
    assert!(fw.decode_reply(vec![0x90, 0x00]).is_ok());
    assert_eq!(fw.into_reply(), (0x9000, vec![]));

    let mut wpk = GetWalletPublicKey::new(vec![0]);
    assert!(wpk.decode_reply(vec![0x90, 0x00]).is_ok());
    assert_eq!(wpk.into_reply(), (0x9000, vec![]));

    let mut rnd = GetRandom::new(1);
    assert!(rnd.decode_reply(vec![0x90, 0x00]).is_ok());
    assert_eq!(rnd.into_reply(), (0x9000, vec![]));

    let mut sign = SignMessageSign::new();
    assert!(sign.decode_reply(vec![0x90, 0x00]).is_ok());
    assert_eq!(sign.into_reply(), (0x9000, vec![]));

    let mut prep = SignMessagePrepare::new(vec![0], vec![1]);
    assert!(prep.decode_reply(vec![0x90, 0x00]).is_ok());
    assert_eq!(prep.into_reply(), (0x9000, vec![]));

    let mut ti = GetTrustedInput::new(vec![7], vec![0, 1], 0);
    assert!(ti.decode_reply(vec![0x90, 0x00]).is_ok());
    assert_eq!(ti.into_reply(), (0x9000, vec![]));
}

#[test]
fn truncated_reply_fails() {
    let mut fw = GetFirmwareVersion::new();
    assert_eq!(fw.decode_reply(vec![0x90]), Err(ApduError::UnexpectedEof));

    let mut wpk = GetWalletPublicKey::new(vec![0]);
    assert_eq!(wpk.decode_reply(vec![]), Err(ApduError::UnexpectedEof));

    let mut rnd = GetRandom::new(1);
    assert_eq!(rnd.decode_reply(vec![0x90]), Err(ApduError::UnexpectedEof));

    let mut sign = SignMessageSign::new();
    assert_eq!(sign.decode_reply(vec![]), Err(ApduError::UnexpectedEof));

    let mut prep = SignMessagePrepare::new(vec![0], vec![1]);
    assert_eq!(prep.decode_reply(vec![0x90]), Err(ApduError::UnexpectedEof));

    let mut ti = GetTrustedInput::new(vec![7], vec![0, 1], 0);
    assert_eq!(ti.decode_reply(vec![]), Err(ApduError::UnexpectedEof));
}

#[test]
fn reply_payload_is_kept() {
    let mut rnd = GetRandom::new(3);
    assert!(rnd.decode_reply(vec![1, 2, 3, 0x90, 0x00]).is_ok());
    assert_eq!(rnd.into_reply(), (0x9000, vec![1, 2, 3]));
}

#[test]
fn non_success_status_is_recorded() {
    let mut fw = GetFirmwareVersion::new();
    assert!(fw.decode_reply(vec![0x69, 0x85]).is_ok());
    assert_eq!(fw.into_reply(), (0x6985, vec![]));
}

#[test]
fn prepare_rejects_extra_payload() {
    let mut prep = SignMessagePrepare::new(vec![0], vec![1]);
    assert_eq!(prep.decode_reply(vec![0x00, 0x90, 0x00]), Err(ApduError::Unsupported));
}

#[test]
fn prepare_bad_status_aborts() {
    let mut prep = SignMessagePrepare::new(vec![0], vec![1]);
    assert_eq!(prep.decode_reply(vec![0x69, 0x85]), Err(ApduError::ApduBadStatus(0x6985)));
    assert_eq!(prep.into_reply(), (0x6985, vec![]));
}
