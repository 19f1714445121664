//! The GET WALLET PUBLIC KEY command and the decoder for its reply.

use vstd::prelude::*;
use vstd::utf8::{decode_utf8, valid_utf8};

use crate::constants::{BTCHIP_CLA, INS_GET_WALLET_PUBLIC_KEY};
use crate::error::ApduError;
use crate::secp::is_public_key_encoding;
use crate::wire::{copy_range, path_encoding, push_path, split_status_word, sw_word};

verus! {

/// The bytes of the GET WALLET PUBLIC KEY request packet for a derivation
/// path: the fixed header, whose length byte covers the encoded path, then
/// the path itself.
pub open spec fn wallet_key_request(path: Seq<u32>) -> Seq<u8> {
    seq![BTCHIP_CLA, INS_GET_WALLET_PUBLIC_KEY, 0u8, 0u8, (1 + 4 * path.len()) as u8]
        + path_encoding(path)
}

/// GET WALLET PUBLIC KEY command: a single packet carrying a derivation
/// path, then one reply.
#[derive(Debug)]
pub struct GetWalletPublicKey {
    /// Whether the one request packet has been handed out.
    pub sent: bool,
    /// The reply payload accumulated so far.
    pub reply: Vec<u8>,
    /// The last status word seen.
    pub sw: u16,
    /// The derivation path of the key to return.
    pub bip32_path: Vec<u32>,
}

impl GetWalletPublicKey {
    /// A fresh command for a derivation path. The device accepts at most
    /// ten child indices.
    pub fn new(bip32_path: Vec<u32>) -> (r: GetWalletPublicKey)
        requires
            bip32_path@.len() < 11,
        ensures
            !r.sent,
            r.reply@ == Seq::<u8>::empty(),
            r.sw == 0,
            r.bip32_path@ == bip32_path@,
    {
        GetWalletPublicKey { sent: false, reply: Vec::new(), sw: 0, bip32_path }
    }

    /// Emit the single request packet on the first call; afterwards nothing
    /// remains to send.
    pub fn encode_next(&mut self, _apdu_size: usize) -> (r: Option<Vec<u8>>)
        requires
            old(self).bip32_path@.len() < 11,
        ensures
            old(self).sent ==> r is None,
            !old(self).sent ==> (r matches Some(p) && p@ == wallet_key_request(
                old(self).bip32_path@,
            )),
            final(self).sent,
            final(self).reply@ == old(self).reply@,
            final(self).sw == old(self).sw,
            final(self).bip32_path@ == old(self).bip32_path@,
    {
        if self.sent {
            return None;
        }
        self.sent = true;
        let mut ret: Vec<u8> = Vec::new();
        ret.push(BTCHIP_CLA);
        ret.push(INS_GET_WALLET_PUBLIC_KEY);
        ret.push(0);
        ret.push(0);
        ret.push((1 + 4 * self.bip32_path.len()) as u8);
        push_path(&mut ret, &self.bip32_path);
        proof {
            assert(ret@ =~= wallet_key_request(self.bip32_path@));
        }
        Some(ret)
    }

    /// Strip the trailing status word off a raw reply, keeping the payload
    /// and recording the status; a reply shorter than the status word is
    /// refused and changes nothing.
    pub fn decode_reply(&mut self, data: Vec<u8>) -> (r: Result<(), ApduError>)
        ensures
            data@.len() < 2 ==> r == Err::<(), ApduError>(ApduError::UnexpectedEof) && *final(self)
                == *old(self),
            data@.len() >= 2 ==> r == Ok::<(), ApduError>(()) && final(self).reply@
                == data@.subrange(0, data@.len() - 2) && final(self).sw == sw_word(
                data@[data@.len() - 2],
                data@[data@.len() - 1],
            ) && final(self).sent == old(self).sent
                && final(self).bip32_path@ == old(self).bip32_path@,
    {
        match split_status_word(data) {
            Ok((payload, sw)) => {
                self.reply = payload;
                self.sw = sw;
                Ok(())
            },
            Err(e) => Err(e),
        }
    }

    /// Terminal operation: the final status word and assembled payload.
    pub fn into_reply(self) -> (r: (u16, Vec<u8>))
        ensures
            r.0 == self.sw,
            r.1@ == self.reply@,
    {
        (self.sw, self.reply)
    }
}

/// Whether the payload is long enough to hold its length-prefixed key field.
pub open spec fn has_key_field(data: Seq<u8>) -> bool {
    data.len() >= 1 && 2 + data[0] as int <= data.len()
}

/// The key bytes of the payload: `data[0]` bytes following the length.
pub open spec fn key_bytes(data: Seq<u8>) -> Seq<u8> {
    data.subrange(1, 1 + data[0] as int)
}

/// The declared length of the address field.
pub open spec fn addr_len(data: Seq<u8>) -> int {
    data[1 + data[0] as int] as int
}

/// Shape check: a length-prefixed key, a length-prefixed address, and a
/// 32-byte chain code account for the whole payload, nothing missing and
/// nothing left over.
pub open spec fn wallet_reply_shape_ok(data: Seq<u8>) -> bool {
    has_key_field(data) && data.len() == 2 + data[0] as int + addr_len(data) + 32
}

/// The address bytes of the payload.
pub open spec fn addr_bytes(data: Seq<u8>) -> Seq<u8> {
    data.subrange(2 + data[0] as int, 2 + data[0] as int + addr_len(data))
}

/// The chain-code bytes: the last 32 bytes of the payload.
pub open spec fn chaincode_bytes(data: Seq<u8>) -> Seq<u8> {
    data.subrange(data.len() - 32, data.len() as int)
}

/// Relies on `String::from_utf8`: conversion succeeds exactly on valid
/// UTF-8 and yields the decoding of those bytes.
#[verifier::external_body]
fn vec_to_utf8_string(v: Vec<u8>) -> (r: Option<String>)
    ensures
        r is Some <==> valid_utf8(v@),
        r matches Some(s) ==> s@ == decode_utf8(v@),
{
    match String::from_utf8(v) {
        Ok(s) => Some(s),
        Err(_) => None,
    }
}

/// Decoded reply to GET WALLET PUBLIC KEY.
#[derive(Debug)]
pub struct WalletPublicKey {
    /// The elliptic-curve public key.
    pub public_key: secp256k1::PublicKey,
    /// The base58-encoded address corresponding to the public key.
    pub b58_address: String,
    /// The 32-byte BIP32 chain code associated to this key.
    pub chaincode: Vec<u8>,
}

impl WalletPublicKey {
    /// Decode a payload (status word already removed), laid out as a
    /// length-prefixed public key, a length-prefixed address, and a 32-byte
    /// chain code. A payload too short for its key field is a truncation
    /// error; key bytes that are no curve point are a key error; a total
    /// length that does not match the declared lengths is a wrong-length
    /// error; address bytes that are not valid text are a text error.
    pub fn decode(data: &[u8]) -> (r: Result<WalletPublicKey, ApduError>)
        ensures
            !has_key_field(data@) ==> r == Err::<WalletPublicKey, ApduError>(
                ApduError::UnexpectedEof,
            ),
            has_key_field(data@) && !is_public_key_encoding(key_bytes(data@)) ==> (r matches Err(e)
                && e matches ApduError::Secp(_)),
            has_key_field(data@) && is_public_key_encoding(key_bytes(data@))
                && !wallet_reply_shape_ok(data@) ==> r == Err::<WalletPublicKey, ApduError>(
                ApduError::ResponseWrongLength(INS_GET_WALLET_PUBLIC_KEY, data@.len() as usize),
            ),
            has_key_field(data@) && is_public_key_encoding(key_bytes(data@))
                && wallet_reply_shape_ok(data@) && !valid_utf8(addr_bytes(data@)) ==> r == Err::<
                WalletPublicKey,
                ApduError,
            >(ApduError::Utf8),
            has_key_field(data@) && is_public_key_encoding(key_bytes(data@))
                && wallet_reply_shape_ok(data@) && valid_utf8(addr_bytes(data@)) ==> r is Ok,
            r matches Ok(w) ==> has_key_field(data@) && is_public_key_encoding(key_bytes(data@))
                && wallet_reply_shape_ok(data@) && valid_utf8(addr_bytes(data@)) && w.b58_address@
                == decode_utf8(addr_bytes(data@)) && w.chaincode@ == chaincode_bytes(data@),
    {
        if data.len() < 1 {
            return Err(ApduError::UnexpectedEof);
        }
        let pk_len = data[0] as usize;
        if 2 + pk_len > data.len() {
            return Err(ApduError::UnexpectedEof);
        }
        let pk = match secp256k1::PublicKey::from_slice(&data[1..1 + pk_len]) {
            Ok(k) => k,
            Err(e) => {
                return Err(ApduError::Secp(e));
            },
        };
        let a_len = data[1 + pk_len] as usize;
        if 2 + pk_len + a_len + 32 != data.len() {
            return Err(ApduError::ResponseWrongLength(INS_GET_WALLET_PUBLIC_KEY, data.len()));
        }
        let addr_vec = copy_range(data, 2 + pk_len, 2 + pk_len + a_len);
        let addr = match vec_to_utf8_string(addr_vec) {
            Some(s) => s,
            None => {
                return Err(ApduError::Utf8);
            },
        };
        let chaincode = copy_range(data, 2 + pk_len + a_len, data.len());
        proof {
            assert(chaincode@ =~= chaincode_bytes(data@));
        }
        Ok(WalletPublicKey { public_key: pk, b58_address: addr, chaincode })
    }
}

} // verus!
