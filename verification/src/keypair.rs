//! Keypairs as the vault handles them: the 64 bytes solana-keygen writes
//! (secret key, then public key) and the public key's text.

use vstd::prelude::*;
use solana_keypair::Signer;

verus! {

/// A keypair in plain values.
pub struct KeyMaterial {
    /// The 32 secret-key bytes followed by the 32 public-key bytes.
    pub bytes: [u8; 64],
    /// The public key in base58.
    pub pubkey: String,
}

/// Whether `bip39::Mnemonic::parse` accepts `phrase`: known words of one
/// language, a valid word count and checksum.
pub uninterp spec fn bip39_phrase_valid(phrase: Seq<char>) -> bool;

/// The keypair `solana_keypair::keypair_from_seed_phrase_and_passphrase`
/// derives from a seed phrase and a BIP39 passphrase, as its 64 bytes and the
/// base58 text of its public key.
pub uninterp spec fn seed_phrase_keypair(phrase: Seq<char>, passphrase: Seq<char>) -> (Seq<u8>, Seq<char>);

/// `bip39::Mnemonic::parse`, keeping only whether it succeeds.
#[verifier::external_body]
pub fn mnemonic_check(phrase: &str) -> (r: Result<(), bip39::Error>)
    ensures
        r is Ok <==> bip39_phrase_valid(phrase@),
{
    bip39::Mnemonic::parse(phrase).map(|_| ())
}

/// The number of words of a phrase whose words are separated by single
/// spaces: one more than its spaces.
pub open spec fn phrase_word_count(s: Seq<char>) -> nat {
    s.filter(|c: char| c == ' ').len() + 1
}

/// `bip39::Mnemonic::generate_in(Language::English, word_count)`, as the
/// phrase's text. The words depend on chance; the crate accepts the word
/// counts 12, 15, 18, 21 and 24, makes exactly that many words, and its
/// `Display` joins them with single spaces (English words hold none). A
/// generated phrase carries a valid checksum, so it parses.
#[verifier::external_body]
pub fn generate_english_mnemonic(word_count: usize) -> (r: Result<String, bip39::Error>)
    ensures
        r is Ok <==> (word_count == 12 || word_count == 15 || word_count == 18 || word_count == 21
            || word_count == 24),
        r matches Ok(p) ==> bip39_phrase_valid(p@) && phrase_word_count(p@) == word_count,
{
    bip39::Mnemonic::generate_in(bip39::Language::English, word_count).map(|m| m.to_string())
}

/// `solana_keypair::keypair_from_seed_phrase_and_passphrase`, read out as the
/// keypair's bytes (`to_bytes`) and its public key's text
/// (`pubkey().to_string()`). The derived seed is always 64 bytes long, so the
/// call never fails.
#[verifier::external_body]
pub fn keypair_from_seed_phrase(phrase: &str, passphrase: &str) -> (r: Result<KeyMaterial, String>)
    ensures
        r is Ok,
        r matches Ok(k) ==> (k.bytes@, k.pubkey@) == seed_phrase_keypair(phrase@, passphrase@),
{
    match solana_keypair::keypair_from_seed_phrase_and_passphrase(phrase, passphrase) {
        Ok(k) => Ok(KeyMaterial { bytes: k.to_bytes(), pubkey: k.pubkey().to_string() }),
        Err(e) => Err(e.to_string()),
    }
}

/// The keypair `solana_keypair::Keypair::try_from_base58_string` reads from
/// `s`, as its 64 bytes and the base58 text of its public key, or `None` when
/// `s` is not the base58 form of 64 bytes that make a valid keypair.
pub uninterp spec fn base58_keypair(s: Seq<char>) -> Option<(Seq<u8>, Seq<char>)>;

/// `solana_keypair::Keypair::try_from_base58_string`, read out as the
/// keypair's bytes and its public key's text; the error as its display text.
#[verifier::external_body]
pub fn keypair_from_base58(s: &str) -> (r: Result<KeyMaterial, String>)
    ensures
        r is Ok <==> base58_keypair(s@) is Some,
        r matches Ok(k) ==> base58_keypair(s@) == Some((k.bytes@, k.pubkey@)),
{
    match solana_keypair::Keypair::try_from_base58_string(s) {
        Ok(k) => Ok(KeyMaterial { bytes: k.to_bytes(), pubkey: k.pubkey().to_string() }),
        Err(e) => Err(e.to_string()),
    }
}

} // verus!
