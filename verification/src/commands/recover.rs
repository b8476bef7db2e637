//! Recovering a keypair from its BIP39 seed phrase.

use vstd::prelude::*;
use crate::error::AppError;
use crate::keypair::{bip39_phrase_valid, keypair_from_seed_phrase, mnemonic_check, seed_phrase_keypair, KeyMaterial};

verus! {

/// The keypair of a seed phrase and BIP39 passphrase; refuses a phrase that
/// is not a valid BIP39 mnemonic.
pub fn recover_from_phrase(phrase: &str, bip39_passphrase: &str) -> (res: Result<KeyMaterial, AppError>)
    ensures
        res is Ok <==> bip39_phrase_valid(phrase@),
        res matches Ok(k) ==> (k.bytes@, k.pubkey@) == seed_phrase_keypair(phrase@, bip39_passphrase@),
        res matches Err(e) ==> e matches AppError::Bip39(_),
{
    match mnemonic_check(phrase) {
        Ok(()) => {},
        Err(e) => return Err(AppError::Bip39(e)),
    }
    match keypair_from_seed_phrase(phrase, bip39_passphrase) {
        Ok(k) => Ok(k),
        Err(msg) => Err(AppError::Other(msg)),
    }
}

} // verus!
