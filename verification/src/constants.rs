//! Fixed protocol constants: the instruction class byte, per-command
//! instruction codes, and the success status word.

use vstd::prelude::*;

verus! {

/// Instruction class byte carried by every outbound packet.
pub const BTCHIP_CLA: u8 = 0xe0;

/// Instruction code: query the firmware version.
pub const INS_GET_FIRMWARE_VERSION: u8 = 0xc4;

/// Instruction code: derive and return a wallet public key.
pub const INS_GET_WALLET_PUBLIC_KEY: u8 = 0x40;

/// Instruction code: obtain a trusted-input attestation blob.
pub const INS_GET_TRUSTED_INPUT: u8 = 0x42;

/// Instruction code: prepare or finish signing a message.
pub const INS_SIGN_MESSAGE: u8 = 0x4e;

/// Instruction code: request random bytes.
pub const INS_GET_RANDOM: u8 = 0xc0;

/// Status word reported by the device on success.
pub const SW_OK: u16 = 0x9000;

} // verus!
