//! The cryptographic building blocks the vault seals entries with, each a
//! thin call into its crate: Argon2id, ChaCha20-Poly1305, standard padded
//! Base64 and the thread-local random generator.

use vstd::prelude::*;
use base64ct::Encoding;
use chacha20poly1305::aead::{Aead, KeyInit};
use rand::Rng;
use zeroize::Zeroize;

verus! {

/// `rand::rngs::ThreadRng`, the thread-local random generator.
#[verifier::external_type_specification]
#[verifier::external_body]
pub struct ExThreadRng(rand::rngs::ThreadRng);

/// `chacha20poly1305::Error` (`aead::Error`), the failure of sealing or
/// opening a message.
#[verifier::external_type_specification]
#[verifier::external_body]
pub struct ExAeadError(chacha20poly1305::Error);

/// `base64ct::Error`, the failure of decoding Base64 text.
#[verifier::external_type_specification]
#[verifier::external_body]
pub struct ExBase64Error(base64ct::Error);

/// The digit of the standard Base64 alphabet for the 6-bit value `v`:
/// `A`-`Z`, `a`-`z`, `0`-`9`, `+`, `/`.
pub open spec fn base64_digit(v: int) -> char {
    if v < 26 {
        (65 + v) as char
    } else if v < 52 {
        (97 + (v - 26)) as char
    } else if v < 62 {
        (48 + (v - 52)) as char
    } else if v == 62 {
        '+'
    } else {
        '/'
    }
}

/// The standard, padded Base64 text of `bytes`
/// (`base64ct::Base64::encode_string`): each group of three bytes becomes
/// four digits of six bits each; a last group of one or two bytes becomes
/// two or three digits, its missing bits zero, padded with `=` to four.
#[verifier::opaque]
pub open spec fn base64_text(bytes: Seq<u8>) -> Seq<char>
    decreases bytes.len(),
{
    if bytes.len() == 0 {
        Seq::empty()
    } else if bytes.len() == 1 {
        let b0 = bytes[0] as int;
        seq![base64_digit(b0 / 4), base64_digit((b0 % 4) * 16), '=', '=']
    } else if bytes.len() == 2 {
        let b0 = bytes[0] as int;
        let b1 = bytes[1] as int;
        seq![base64_digit(b0 / 4), base64_digit((b0 % 4) * 16 + b1 / 16), base64_digit((b1 % 16) * 4), '=']
    } else {
        let b0 = bytes[0] as int;
        let b1 = bytes[1] as int;
        let b2 = bytes[2] as int;
        seq![
            base64_digit(b0 / 4),
            base64_digit((b0 % 4) * 16 + b1 / 16),
            base64_digit((b1 % 16) * 4 + b2 / 64),
            base64_digit(b2 % 64),
        ] + base64_text(bytes.subrange(3, bytes.len() as int))
    }
}

/// The Argon2id (version 0x13) output of `out_len` bytes for `password` and
/// `salt` under memory cost `m`, time cost `t` and parallelism `p`.
pub uninterp spec fn argon2id_output(
    password: Seq<u8>,
    salt: Seq<u8>,
    m: u32,
    t: u32,
    p: u32,
    out_len: nat,
) -> Seq<u8>;

/// The ChaCha20-Poly1305 sealing of `plaintext` under `key` and `nonce`, with
/// no associated data: the ciphertext followed by the 16-byte tag.
pub uninterp spec fn chacha20poly1305_sealed(key: Seq<u8>, nonce: Seq<u8>, plaintext: Seq<u8>) -> Seq<u8>;

/// The largest input `Base64::encode_string` takes without overflowing the
/// length of its output.
pub open spec fn base64_input_ok(len: nat) -> bool {
    len * 4 <= usize::MAX
}

/// The inputs `argon2` accepts: `Params::new` checks the costs and the output
/// length, `hash_password_into` the password and salt lengths.
pub open spec fn argon2_accepts(m: u32, t: u32, p: u32, out_len: nat, password_len: nat, salt_len: nat) -> bool {
    &&& m >= 8
    &&& m >= p * 8
    &&& t >= 1
    &&& 1 <= p <= 0xFF_FFFF
    &&& 4 <= out_len <= 0xFFFF_FFFF
    &&& password_len <= 0xFFFF_FFFF
    &&& 8 <= salt_len <= 0xFFFF_FFFF
}

/// The messages ChaCha20-Poly1305 seals: fewer than 2^32 - 1 blocks of 64 bytes.
pub open spec fn aead_message_ok(len: nat) -> bool {
    len / 64 < 0xFFFF_FFFF
}

/// `rand::rng()`: the thread-local generator. The call panics if the
/// operating system's random source fails while seeding it, which no
/// argument can rule out.
#[verifier::external_body]
pub fn thread_rng() -> rand::rngs::ThreadRng {
    rand::rng()
}

/// `Rng::fill_bytes`: overwrites `buf` with random bytes. Only the length is
/// promised; the bytes depend on chance.
#[verifier::external_body]
pub fn fill_random(rng: &mut rand::rngs::ThreadRng, buf: &mut Vec<u8>)
    ensures
        final(buf)@.len() == old(buf)@.len(),
{
    rng.fill_bytes(buf.as_mut_slice());
}

/// `Zeroize::zeroize` on a byte vector: every byte, and the spare capacity,
/// is overwritten with zero, then the vector is cleared.
#[verifier::external_body]
pub fn wipe(buf: &mut Vec<u8>)
    ensures
        final(buf)@ == Seq::<u8>::empty(),
{
    buf.zeroize();
}

/// `Base64::encode_string`: the standard padded Base64 text of `bytes`, as
/// `base64_text` spells it out. It
/// panics when four times the input length overflows, hence the `requires`.
#[verifier::external_body]
pub fn base64_encode(bytes: &[u8]) -> (s: String)
    requires
        base64_input_ok(bytes@.len()),
    ensures
        s@ == base64_text(bytes@),
{
    base64ct::Base64::encode_string(bytes)
}

/// `Base64::decode_vec`: decoding is exact and canonical, as the crate
/// re-encodes the last block and rejects any mismatch. The text of any byte
/// sequence decodes back to it, and whatever decodes is the text of what it
/// decodes to.
#[verifier::external_body]
pub fn base64_decode(text: &str) -> (r: Result<Vec<u8>, base64ct::Error>)
    ensures
        r matches Ok(v) ==> base64_input_ok(v@.len()) && base64_text(v@) == text@
            && forall|d: Seq<u8>| base64_input_ok(d.len()) && #[trigger] base64_text(d) == text@ ==> d == v@,
        r is Err ==> forall|d: Seq<u8>| base64_input_ok(d.len()) ==> #[trigger] base64_text(d) != text@,
{
    base64ct::Base64::decode_vec(text)
}

/// Argon2id, version 0x13: `Params::new(m, t, p, Some(out_len))`, then
/// `Argon2::new(Algorithm::Argon2id, Version::V0x13, params)` and
/// `hash_password_into` into a buffer of `out_len` bytes. The error is
/// handed back as its display text. The call succeeds exactly on the inputs
/// the crate's checks accept; the requires rules out the overflow of `p * 8`
/// inside `Params::new`.
#[verifier::external_body]
pub fn argon2id_hash(
    password: &[u8],
    salt: &[u8],
    m: u32,
    t: u32,
    p: u32,
    out_len: usize,
) -> (r: Result<Vec<u8>, String>)
    requires
        p <= 0xFF_FFFF,
    ensures
        r is Ok <==> argon2_accepts(m, t, p, out_len as nat, password@.len(), salt@.len()),
        r matches Ok(k) ==> k@ == argon2id_output(password@, salt@, m, t, p, out_len as nat)
            && k@.len() == out_len,
{
    let params = argon2::Params::new(m, t, p, Some(out_len)).map_err(|e| e.to_string())?;
    let ctx = argon2::Argon2::new(argon2::Algorithm::Argon2id, argon2::Version::V0x13, params);
    let mut out = vec![0u8; out_len];
    ctx.hash_password_into(password, salt, &mut out).map_err(|e| e.to_string())?;
    Ok(out)
}

/// `ChaCha20Poly1305::new(key).encrypt(nonce, plaintext)`: seals with no
/// associated data. The crate refuses messages of 2^32 - 1 or more blocks;
/// the output is the ciphertext and the 16-byte tag.
#[verifier::external_body]
pub fn aead_seal(key: &[u8], nonce: &[u8], plaintext: &[u8]) -> (r: Result<Vec<u8>, chacha20poly1305::Error>)
    requires
        key@.len() == 32,
        nonce@.len() == 12,
    ensures
        r is Ok <==> aead_message_ok(plaintext@.len()),
        r matches Ok(c) ==> c@ == chacha20poly1305_sealed(key@, nonce@, plaintext@)
            && c@.len() == plaintext@.len() + 16,
{
    let cipher = chacha20poly1305::ChaCha20Poly1305::new(chacha20poly1305::Key::from_slice(key));
    cipher.encrypt(chacha20poly1305::Nonce::from_slice(nonce), plaintext)
}

/// `ChaCha20Poly1305::new(key).decrypt(nonce, ciphertext)`: opens with no
/// associated data. The tag check makes it succeed exactly on the sealings
/// under the same key and nonce, and it gives back the sealed message.
#[verifier::external_body]
pub fn aead_open(key: &[u8], nonce: &[u8], ciphertext: &[u8]) -> (r: Result<Vec<u8>, chacha20poly1305::Error>)
    requires
        key@.len() == 32,
        nonce@.len() == 12,
    ensures
        r matches Ok(q) ==> aead_message_ok(q@.len())
            && chacha20poly1305_sealed(key@, nonce@, q@) == ciphertext@
            && forall|p: Seq<u8>| aead_message_ok(p.len()) && #[trigger] chacha20poly1305_sealed(key@, nonce@, p) == ciphertext@ ==> p == q@,
        r is Err ==> forall|p: Seq<u8>| aead_message_ok(p.len()) ==> #[trigger] chacha20poly1305_sealed(key@, nonce@, p) != ciphertext@,
{
    let cipher = chacha20poly1305::ChaCha20Poly1305::new(chacha20poly1305::Key::from_slice(key));
    cipher.decrypt(chacha20poly1305::Nonce::from_slice(nonce), ciphertext)
}

} // verus!
