//! Adding keys to and removing keys from the vault and its index.

use vstd::prelude::*;
use crate::encryption::{decrypt, encrypt, has_current_header, is_sealing, opens_to, EncFile};
use crate::encryption::{decrypt_error};
use crate::encryption::primitives::{aead_message_ok, base64_input_ok};
use crate::error::{AppError, EncError};
use crate::text::decimal_text;
use crate::vault::env::{addr_text, KeyAddr};
use crate::vault::index::{has_match, is_timestamp_text, new_record, record_matches, Index, KeyRecord};

verus! {

/// `serde_json::to_vec` on a vector of bytes. Serialising a sequence of
/// integers cannot fail, and serde_json's compact form writes them as plain
/// decimal numbers separated by commas inside brackets.
#[verifier::external_body]
fn json_to_vec_bytes(bytes: &[u8]) -> (r: Result<Vec<u8>, serde_json::Error>)
    ensures
        r is Ok,
        r matches Ok(v) ==> v@ == ascii_bytes(json_byte_array_text(bytes@)),
{
    serde_json::to_vec(&bytes.to_vec())
}

/// The bytes of an ASCII text.
pub open spec fn ascii_bytes(s: Seq<char>) -> Seq<u8> {
    s.map_values(|c: char| c as u8)
}

/// The decimal numbers of `bytes`, separated by commas.
pub open spec fn json_numbers(bytes: Seq<u8>) -> Seq<char>
    decreases bytes.len(),
{
    if bytes.len() == 0 {
        Seq::empty()
    } else if bytes.len() == 1 {
        decimal_text(bytes[0] as nat)
    } else {
        json_numbers(bytes.drop_last()) + ","@ + decimal_text(bytes.last() as nat)
    }
}

/// The compact JSON array of `bytes`, such as `[1,2,3]`: the solana-keygen
/// keypair file format.
pub open spec fn json_byte_array_text(bytes: Seq<u8>) -> Seq<char> {
    "["@ + json_numbers(bytes) + "]"@
}

/// The index holds at most one record per address.
pub open spec fn no_duplicate_keys(recs: Seq<KeyRecord>) -> bool {
    forall|i: int, j: int|
        0 <= i < j < recs.len() ==> !(#[trigger] recs[i].env == #[trigger] recs[j].env && recs[i].name == recs[j].name)
}

/// solana-keygen format: the JSON array of the 64 keypair bytes.
pub fn encode_keypair_json(bytes: [u8; 64]) -> (res: Result<Vec<u8>, AppError>)
    ensures
        res matches Ok(v) && v@ == ascii_bytes(json_byte_array_text(bytes@)),
{
    match json_to_vec_bytes(bytes.as_slice()) {
        Ok(v) => Ok(v),
        Err(e) => Err(AppError::Json(e)),
    }
}

/// Seals `plaintext` under `pw` as the new key `addr` and records it in the
/// index; the sealed file, to be written as the vault entry, is handed back.
/// Refuses an address the index already holds.
pub fn store(
    index: &mut Index,
    addr: &KeyAddr,
    pubkey: &str,
    plaintext: &[u8],
    pw: &[u8],
) -> (res: Result<EncFile, AppError>)
    requires
        base64_input_ok(plaintext@.len() + 16),
    ensures
        has_match(old(index)@, *addr) ==> (res matches Err(AppError::DuplicateKey(m)) && m@ == addr_text(
            addr.env,
            addr.name@,
        )),
        !has_match(old(index)@, *addr) ==> (res is Ok <==> pw@.len() <= 0xFFFF_FFFF && aead_message_ok(
            plaintext@.len(),
        )),
        res matches Ok(f) ==> has_current_header(f) && is_sealing(f, pw@, plaintext@) && exists|t: Seq<char>|
            is_timestamp_text(t) && final(index)@ == old(index)@.push(#[trigger] new_record(*addr, pubkey@, t)),
        res is Err ==> final(index)@ == old(index)@,
        !has_match(old(index)@, *addr) && res is Err ==> res matches Err(AppError::Enc(EncError::Crypto(_))),
{
    if index.contains(addr) {
        return Err(AppError::DuplicateKey(addr.to_string()));
    }
    let enc = match encrypt(pw, plaintext) {
        Ok(f) => f,
        Err(e) => return Err(AppError::Enc(e)),
    };
    let mut pk = String::new();
    pk.append(pubkey);
    index.insert(addr, pk);
    Ok(enc)
}

/// Storing a key keeps an index free of duplicate addresses.
pub proof fn lemma_store_keeps_keys_unique(
    recs: Seq<KeyRecord>,
    addr: KeyAddr,
    pubkey: Seq<char>,
    created_at: Seq<char>,
)
    requires
        no_duplicate_keys(recs),
        !has_match(recs, addr),
    ensures
        no_duplicate_keys(recs.push(new_record(addr, pubkey, created_at))),
{
    let s = recs.push(new_record(addr, pubkey, created_at));
    assert forall|i: int, j: int| 0 <= i < j < s.len() implies !(#[trigger] s[i].env == #[trigger] s[j].env
        && s[i].name == s[j].name) by {
        if j == recs.len() {
            assert(s[i] == recs[i]);
            assert(!record_matches(recs[i], addr));
        } else {
            assert(s[i] == recs[i] && s[j] == recs[j]);
        }
    }
}

/// Opens the vault entry of `addr`; `entry` is the sealed file read from the
/// vault, or `None` when there is none.
pub fn load_decrypt(addr: &KeyAddr, entry: Option<&EncFile>, pw: &[u8]) -> (res: Result<Vec<u8>, AppError>)
    ensures
        entry is None ==> (res matches Err(AppError::KeyNotFound(m)) && m@ == addr_text(addr.env, addr.name@)),
        entry matches Some(f) ==> match res {
            Ok(q) => opens_to(*f, pw@, q@),
            Err(AppError::Enc(e)) => decrypt_error(*f, pw@, e),
            _ => false,
        },
        entry matches Some(f) ==> forall|p: Seq<u8>| #[trigger] is_sealing(*f, pw@, p) ==> (res matches Ok(q) && q@ == p),
        entry matches Some(f) ==> forall|p: Seq<u8>| #[trigger] opens_to(*f, pw@, p) ==> (res matches Ok(q) && q@ == p),
{
    match entry {
        None => Err(AppError::KeyNotFound(addr.to_string())),
        Some(f) => match decrypt(pw, f) {
            Ok(p) => Ok(p),
            Err(e) => Err(AppError::Enc(e)),
        },
    }
}

/// Removes the key `addr` from the index; the caller removes its vault entry.
pub fn delete(index: &mut Index, addr: &KeyAddr) -> (res: Result<(), AppError>)
    ensures
        res is Ok <==> has_match(old(index)@, *addr),
        res matches Err(e) ==> e matches AppError::KeyNotFound(m) && m@ == addr_text(addr.env, addr.name@),
        res is Ok ==> final(index)@ == old(index)@.filter(|r: KeyRecord| !record_matches(r, *addr)),
        res is Err ==> final(index)@ == old(index)@,
{
    if !index.contains(addr) {
        return Err(AppError::KeyNotFound(addr.to_string()));
    }
    index.remove(addr);
    Ok(())
}

} // verus!
