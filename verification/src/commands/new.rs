//! Generating a fresh keypair together with its recovery seed phrase.

use vstd::prelude::*;
use crate::error::AppError;
use crate::keypair::{
    bip39_phrase_valid, generate_english_mnemonic, keypair_from_seed_phrase, phrase_word_count, seed_phrase_keypair,
    KeyMaterial,
};

verus! {

/// A new random 12-word English seed phrase (words separated by single
/// spaces) and the keypair it derives with an empty BIP39 passphrase;
/// recovering from that phrase gives the same keypair back.
pub fn generate_keypair() -> (res: Result<(String, KeyMaterial), AppError>)
    ensures
        res is Ok,
        res matches Ok((phrase, k)) ==> bip39_phrase_valid(phrase@) && phrase_word_count(phrase@) == 12
            && (k.bytes@, k.pubkey@) == seed_phrase_keypair(phrase@, ""@),
{
    let phrase = match generate_english_mnemonic(12) {
        Ok(p) => p,
        Err(e) => return Err(AppError::Bip39(e)),
    };
    match keypair_from_seed_phrase(phrase.as_str(), "") {
        Ok(k) => Ok((phrase, k)),
        Err(msg) => Err(AppError::Other(msg)),
    }
}

} // verus!
