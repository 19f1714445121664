//! The two response decoders: firmware version and wallet public key.

use dongle_apdu::error::ApduError;
use dongle_apdu::firmware::FirmwareVersion;
use dongle_apdu::wallet::WalletPublicKey;

// The compressed encoding of the secp256k1 generator point: a valid key.
const GENERATOR: [u8; 33] = [
    0x02, 0x79, 0xbe, 0x66, 0x7e, 0xf9, 0xdc, 0xbb, 0xac, 0x55, 0xa0, 0x62, 0x95, 0xce, 0x87,
    0x0b, 0x07, 0x02, 0x9b, 0xfc, 0xdb, 0x2d, 0xce, 0x28, 0xd9, 0x59, 0xf2, 0x81, 0x5b, 0x16,
    0xf8, 0x17, 0x98,
];

#[test]
fn firmware_decode_minimal() {
    let v = FirmwareVersion::decode(&[0x00, 1, 2, 3, 4]).expect("five bytes decode");
    assert!(!v.compressed);
    assert!(!v.has_screen_and_buttons);
    assert!(!v.external_screen_and_buttons);
    assert!(!v.nfc_payment_ext);
    assert!(!v.ble_low_power_ext);
    assert!(!v.tee);
    assert_eq!(v.architecture, 1);
    assert_eq!(v.major_version, 2);
    assert_eq!(v.minor_version, 3);
    assert_eq!(v.patch_version, 4);
    assert_eq!(v.loader_major_version, None);
    assert_eq!(v.loader_minor_version, None);
}

#[test]
fn firmware_decode_flags() {
    let v = FirmwareVersion::decode(&[0x2a, 0, 0, 0, 0]).expect("five bytes decode");
    assert!(!v.compressed);
    assert!(v.has_screen_and_buttons);
    assert!(!v.external_screen_and_buttons);
    assert!(v.nfc_payment_ext);
    assert!(!v.ble_low_power_ext);
    assert!(v.tee);
}

#[test]
fn firmware_decode_with_loader() {
    let v7 = FirmwareVersion::decode(&[0x01, 1, 2, 3, 4, 9, 8]).expect("seven bytes decode");
    assert!(v7.compressed);
    assert_eq!(v7.loader_major_version, Some(9));
    assert_eq!(v7.loader_minor_version, Some(8));

    let v8 = FirmwareVersion::decode(&[0x01, 1, 2, 3, 4, 9, 8, 0]).expect("eight bytes decode");
    assert_eq!(v8.loader_major_version, Some(9));
    assert_eq!(v8.loader_minor_version, Some(8));

    let v6 = FirmwareVersion::decode(&[0x01, 1, 2, 3, 4, 9]).expect("six bytes decode");
    assert_eq!(v6.loader_major_version, None);
    assert_eq!(v6.loader_minor_version, None);
}

#[test]
fn firmware_decode_wrong_length() {
    assert_eq!(
        FirmwareVersion::decode(&[0x00, 1, 2, 3]),
        Err(ApduError::ResponseWrongLength(0xc4, 4))
    );
    assert_eq!(
        FirmwareVersion::decode(&[0x00, 1, 2, 3, 4, 5, 6, 7, 8]),
        Err(ApduError::ResponseWrongLength(0xc4, 9))
    );
}

fn wallet_payload(addr: &[u8]) -> Vec<u8> {
    let mut data = vec![0x21];
    data.extend_from_slice(&GENERATOR);
    data.push(addr.len() as u8);
    data.extend_from_slice(addr);
    data.extend_from_slice(&[0u8; 32]);
    data
}

#[test]
fn wallet_decode_ok() {
    let data = wallet_payload(b"ab");
    assert_eq!(data.len(), 2 + 33 + 2 + 32);
    let w = WalletPublicKey::decode(&data).expect("well-formed payload decodes");
    assert_eq!(w.b58_address, "ab");
    assert_eq!(w.chaincode, vec![0u8; 32]);
    assert_eq!(w.public_key.serialize(), GENERATOR);
}

#[test]
fn wallet_decode_truncated() {
    let mut data = wallet_payload(b"ab");
    data.pop();
    assert_eq!(
        WalletPublicKey::decode(&data).unwrap_err(),
        ApduError::ResponseWrongLength(0x40, 68)
    );
}

#[test]
fn wallet_decode_invalid_key() {
    let mut data = vec![0x21];
    data.extend_from_slice(&[0u8; 33]);
    data.push(2);
    data.extend_from_slice(b"ab");
    data.extend_from_slice(&[0u8; 32]);
    let r = WalletPublicKey::decode(&data);
    assert!(matches!(r, Err(ApduError::Secp(_))));
}

#[test]
fn wallet_decode_short_key_field() {
    assert_eq!(WalletPublicKey::decode(&[]).unwrap_err(), ApduError::UnexpectedEof);
    assert_eq!(WalletPublicKey::decode(&[0x05, 1, 2]).unwrap_err(), ApduError::UnexpectedEof);
}

#[test]
fn wallet_decode_bad_text() {
    let data = wallet_payload(&[0xff]);
    assert_eq!(WalletPublicKey::decode(&data).unwrap_err(), ApduError::Utf8);
}

#[test]
fn wallet_decode_multibyte_text() {
    // A two-byte encoding of a single character: decoding really happens.
    let data = wallet_payload(&[0xc3, 0xa9]);
    let w = WalletPublicKey::decode(&data).expect("valid text decodes");
    assert_eq!(w.b58_address.chars().count(), 1);
    assert_eq!(w.b58_address, "\u{e9}");
}
