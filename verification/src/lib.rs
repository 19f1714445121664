//! Command/response protocol layer for a Bitcoin hardware-signing dongle.
//!
//! Structured requests (firmware query, public-key derivation, message
//! signing, randomness, transaction-input attestation) are encoded as one or
//! more fixed-header APDU packets sized to a transport-imposed limit, and the
//! device's raw byte replies are decoded back into typed results.

pub mod constants;
pub mod error;
pub mod firmware;
pub mod random;
pub mod sign;
pub mod trusted_input;
pub mod wallet;
pub mod secp;
pub mod wire;
