//! The GET FIRMWARE VERSION command and the decoder for its reply.

use vstd::prelude::*;

use crate::constants::{BTCHIP_CLA, INS_GET_FIRMWARE_VERSION};
use crate::error::ApduError;
use crate::wire::{split_status_word, sw_word};

verus! {

/// The bytes of the GET FIRMWARE VERSION request packet.
pub open spec fn firmware_request() -> Seq<u8> {
    seq![BTCHIP_CLA, INS_GET_FIRMWARE_VERSION, 0u8, 0u8, 0u8]
}

/// GET FIRMWARE VERSION command: a single fixed packet, then one reply.
#[derive(Debug)]
pub struct GetFirmwareVersion {
    /// Whether the one request packet has been handed out.
    pub sent: bool,
    /// The reply payload accumulated so far.
    pub reply: Vec<u8>,
    /// The last status word seen.
    pub sw: u16,
}

impl GetFirmwareVersion {
    /// A fresh command: nothing sent, no reply, status word zero.
    pub fn new() -> (r: GetFirmwareVersion)
        ensures
            !r.sent,
            r.reply@ == Seq::<u8>::empty(),
            r.sw == 0,
    {
        GetFirmwareVersion { sent: false, reply: Vec::new(), sw: 0 }
    }

    /// Emit the single request packet on the first call; afterwards nothing
    /// remains to send.
    pub fn encode_next(&mut self, _apdu_size: usize) -> (r: Option<Vec<u8>>)
        ensures
            old(self).sent ==> r is None,
            !old(self).sent ==> (r matches Some(p) && p@ == firmware_request()),
            final(self).sent,
            final(self).reply@ == old(self).reply@,
            final(self).sw == old(self).sw,
    {
        if self.sent {
            None
        } else {
            self.sent = true;
            let mut ret: Vec<u8> = Vec::new();
            ret.push(BTCHIP_CLA);
            ret.push(INS_GET_FIRMWARE_VERSION);
            ret.push(0);
            ret.push(0);
            ret.push(0);
            proof {
                assert(ret@ =~= firmware_request());
            }
            Some(ret)
        }
    }

    /// Strip the trailing status word off a raw reply, keeping the payload
    /// and recording the status; a reply shorter than the status word is
    /// refused and changes nothing.
    pub fn decode_reply(&mut self, data: Vec<u8>) -> (r: Result<(), ApduError>)
        ensures
            data@.len() < 2 ==> r == Err::<(), ApduError>(ApduError::UnexpectedEof) && *final(self)
                == *old(self),
            data@.len() >= 2 ==> r == Ok::<(), ApduError>(()) && final(self).reply@
                == data@.subrange(0, data@.len() - 2) && final(self).sw == sw_word(
                data@[data@.len() - 2],
                data@[data@.len() - 1],
            ) && final(self).sent == old(self).sent,
    {
        match split_status_word(data) {
            Ok((payload, sw)) => {
                self.reply = payload;
                self.sw = sw;
                Ok(())
            },
            Err(e) => Err(e),
        }
    }

    /// Terminal operation: the final status word and assembled payload.
    pub fn into_reply(self) -> (r: (u16, Vec<u8>))
        ensures
            r.0 == self.sw,
            r.1@ == self.reply@,
    {
        (self.sw, self.reply)
    }
}

/// Decoded reply to GET FIRMWARE VERSION: capability flags, architecture,
/// version bytes, and the loader version when the reply carries it.
#[derive(Debug, PartialEq, Eq)]
pub struct FirmwareVersion {
    /// Whether the device uses compressed keys.
    pub compressed: bool,
    /// Whether the device has its own screen and buttons.
    pub has_screen_and_buttons: bool,
    /// Whether the device takes user input externally.
    pub external_screen_and_buttons: bool,
    /// Whether the device supports NFC and payment extensions.
    pub nfc_payment_ext: bool,
    /// Whether the device supports BLE and low-power extensions.
    pub ble_low_power_ext: bool,
    /// Whether the implementation runs in a trusted execution environment.
    pub tee: bool,
    /// Architecture byte.
    pub architecture: u8,
    /// Major version.
    pub major_version: u8,
    /// Minor version.
    pub minor_version: u8,
    /// Patch version.
    pub patch_version: u8,
    /// Loader major version, when the reply carries one.
    pub loader_major_version: Option<u8>,
    /// Loader minor version, when the reply carries one.
    pub loader_minor_version: Option<u8>,
}

impl FirmwareVersion {
    /// Whether `v` is the decoding of payload `data`: byte 0 is the
    /// capability bit-field, bytes 1 through 4 are architecture and version,
    /// and bytes 5 and 6, when present, are the loader version.
    pub open spec fn decodes(data: Seq<u8>, v: FirmwareVersion) -> bool {
        &&& v.compressed == (data[0] & 0x01 != 0)
        &&& v.has_screen_and_buttons == (data[0] & 0x02 != 0)
        &&& v.external_screen_and_buttons == (data[0] & 0x04 != 0)
        &&& v.nfc_payment_ext == (data[0] & 0x08 != 0)
        &&& v.ble_low_power_ext == (data[0] & 0x10 != 0)
        &&& v.tee == (data[0] & 0x20 != 0)
        &&& v.architecture == data[1]
        &&& v.major_version == data[2]
        &&& v.minor_version == data[3]
        &&& v.patch_version == data[4]
        &&& data.len() >= 7 ==> v.loader_major_version == Some(data[5])
            && v.loader_minor_version == Some(data[6])
        &&& data.len() < 7 ==> v.loader_major_version is None && v.loader_minor_version is None
    }

    /// Decode a payload (status word already removed). Exactly the payloads
    /// of 5 to 8 bytes decode; any other length is a wrong-length error.
    pub fn decode(data: &[u8]) -> (r: Result<FirmwareVersion, ApduError>)
        ensures
            (5 <= data@.len() <= 8) <==> r is Ok,
            r matches Ok(v) ==> Self::decodes(data@, v),
            !(5 <= data@.len() <= 8) ==> r == Err::<FirmwareVersion, ApduError>(
                ApduError::ResponseWrongLength(INS_GET_FIRMWARE_VERSION, data@.len() as usize),
            ),
    {
        if data.len() < 5 || data.len() > 8 {
            return Err(ApduError::ResponseWrongLength(INS_GET_FIRMWARE_VERSION, data.len()));
        }
        let loader_major: Option<u8>;
        let loader_minor: Option<u8>;
        if data.len() >= 7 {
            loader_major = Some(data[5]);
            loader_minor = Some(data[6]);
        } else {
            loader_major = None;
            loader_minor = None;
        }
        Ok(
            FirmwareVersion {
                compressed: data[0] & 0x01 != 0,
                has_screen_and_buttons: data[0] & 0x02 != 0,
                external_screen_and_buttons: data[0] & 0x04 != 0,
                nfc_payment_ext: data[0] & 0x08 != 0,
                ble_low_power_ext: data[0] & 0x10 != 0,
                tee: data[0] & 0x20 != 0,
                architecture: data[1],
                major_version: data[2],
                minor_version: data[3],
                patch_version: data[4],
                loader_major_version: loader_major,
                loader_minor_version: loader_minor,
            },
        )
    }
}

} // verus!
