//! Trusted declarations for the elliptic-curve library: the public-key and
//! error types, and the public-key parser.

use vstd::prelude::*;

verus! {

#[verifier::external_type_specification]
#[verifier::external_body]
pub struct ExPublicKey(secp256k1::PublicKey);

#[verifier::external_type_specification]
#[verifier::external_body]
pub struct ExSecpError(secp256k1::Error);

/// Whether a byte string is a well-formed encoding of a secp256k1 point
/// (a 33-byte compressed or 65-byte uncompressed form of a valid curve
/// point), exactly as `secp256k1::PublicKey::from_slice` accepts it.
pub uninterp spec fn is_public_key_encoding(bytes: Seq<u8>) -> bool;

/// Relies on `secp256k1::PublicKey::from_slice`: parsing succeeds exactly
/// when the input is a valid 33- or 65-byte encoding of a curve point, and
/// what it accepts depends on the bytes alone.
pub assume_specification[ secp256k1::PublicKey::from_slice ](
    data: &[u8],
) -> (r: Result<secp256k1::PublicKey, secp256k1::Error>)
    ensures
        r is Ok <==> is_public_key_encoding(data@),
;

} // verus!
