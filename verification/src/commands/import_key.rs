//! Importing a key from its base58 private-key text (as wallets export it).

use vstd::prelude::*;
use crate::error::AppError;
use crate::keypair::{base58_keypair, keypair_from_base58, KeyMaterial};
use crate::text::{trim, trim_text};

verus! {

/// The keypair whose base58 text `input` holds, surrounding white space
/// ignored; text that is not such a key is an invalid private key.
pub fn private_key_material(input: &str) -> (res: Result<KeyMaterial, AppError>)
    ensures
        res is Ok <==> base58_keypair(trim_text(input@)) is Some,
        res matches Ok(k) ==> base58_keypair(trim_text(input@)) == Some((k.bytes@, k.pubkey@)),
        res matches Err(e) ==> e matches AppError::InvalidPrivateKey(_),
{
    let secret = trim(input);
    match keypair_from_base58(secret.as_str()) {
        Ok(k) => Ok(k),
        Err(msg) => Err(AppError::InvalidPrivateKey(msg)),
    }
}

} // verus!
