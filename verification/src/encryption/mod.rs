//! Sealing vault entries under a passphrase: Argon2id derives a key from the
//! passphrase and a fresh random salt, ChaCha20-Poly1305 seals the plaintext
//! under a fresh random nonce, and the file keeps all three in Base64.

pub mod primitives;

use vstd::prelude::*;
use crate::constant::{
    ARGON2_M, ARGON2_P, ARGON2_T, ENC_FILE_VERSION, ERR_BAD_CIPHERTEXT, ERR_BAD_NONCE,
    ERR_BAD_NONCE_LEN, ERR_BAD_SALT, ERR_ENCRYPT_FAILED, KDF_ALGO_ARGON2ID, KEY_LEN, NONCE_LEN,
    SALT_LEN,
};
use crate::error::EncError;
use crate::text::owned;
use self::primitives::{
    aead_message_ok, aead_open, aead_seal, argon2_accepts, argon2id_hash, argon2id_output,
    base64_decode, base64_encode, base64_input_ok, base64_text, chacha20poly1305_sealed,
    fill_random, thread_rng, wipe,
};

verus! {

/// The key-derivation settings recorded in a sealed file.
pub struct KdfParams {
    pub algo: String,
    pub m: u32,
    pub t: u32,
    pub p: u32,
}

/// A sealed vault entry, as stored on disk.
pub struct EncFile {
    pub version: u32,
    pub kdf: KdfParams,
    pub salt: String,
    pub nonce: String,
    pub ciphertext: String,
}

/// The 32-byte key the vault derives from `password` and `salt`.
pub open spec fn vault_key(password: Seq<u8>, salt: Seq<u8>) -> Seq<u8> {
    argon2id_output(password, salt, ARGON2_M, ARGON2_T, ARGON2_P, KEY_LEN as nat)
}

/// The passwords and salts the vault's key derivation accepts.
pub open spec fn kdf_accepts(password_len: nat, salt_len: nat) -> bool {
    argon2_accepts(ARGON2_M, ARGON2_T, ARGON2_P, KEY_LEN as nat, password_len, salt_len)
}

/// The bytes the Base64 text `s` stands for, if it stands for any.
pub open spec fn base64_bytes(s: Seq<char>) -> Option<Seq<u8>> {
    if exists|d: Seq<u8>| base64_input_ok(d.len()) && #[trigger] base64_text(d) == s {
        Some(choose|d: Seq<u8>| base64_input_ok(d.len()) && #[trigger] base64_text(d) == s)
    } else {
        None
    }
}

/// The header every file written by `encrypt` carries.
pub open spec fn has_current_header(f: EncFile) -> bool {
    &&& f.version == ENC_FILE_VERSION
    &&& f.kdf.algo@ == KDF_ALGO_ARGON2ID@
    &&& f.kdf.m == ARGON2_M
    &&& f.kdf.t == ARGON2_T
    &&& f.kdf.p == ARGON2_P
}

/// `f` seals `plaintext` under `password` with this salt and nonce: it holds
/// their Base64 text and that of the sealing of the plaintext under the key
/// derived from the password and the salt.
pub open spec fn sealed_with(
    f: EncFile,
    password: Seq<u8>,
    plaintext: Seq<u8>,
    salt: Seq<u8>,
    nonce: Seq<u8>,
) -> bool {
    &&& salt.len() == SALT_LEN
    &&& nonce.len() == NONCE_LEN
    &&& kdf_accepts(password.len(), salt.len())
    &&& aead_message_ok(plaintext.len())
    &&& base64_input_ok(plaintext.len() + 16)
    &&& f.salt@ == base64_text(salt)
    &&& f.nonce@ == base64_text(nonce)
    &&& f.ciphertext@ == base64_text(chacha20poly1305_sealed(vault_key(password, salt), nonce, plaintext))
    &&& chacha20poly1305_sealed(vault_key(password, salt), nonce, plaintext).len() == plaintext.len() + 16
}

/// `f` seals `plaintext` under `password`, for some salt and nonce of the
/// vault's sizes.
pub open spec fn is_sealing(f: EncFile, password: Seq<u8>, plaintext: Seq<u8>) -> bool {
    exists|salt: Seq<u8>, nonce: Seq<u8>| #[trigger] sealed_with(f, password, plaintext, salt, nonce)
}

/// `f` opens to `plaintext` under `password`: its three fields decode, the
/// nonce has the right size, the key derivation accepts the password and
/// salt, and the ciphertext is the sealing of the plaintext under that key.
pub open spec fn opens_to(f: EncFile, password: Seq<u8>, plaintext: Seq<u8>) -> bool {
    &&& base64_bytes(f.salt@) is Some
    &&& base64_bytes(f.nonce@) is Some
    &&& base64_bytes(f.ciphertext@) is Some
    &&& base64_bytes(f.nonce@)->0.len() == NONCE_LEN
    &&& kdf_accepts(password.len(), base64_bytes(f.salt@)->0.len())
    &&& aead_message_ok(plaintext.len())
    &&& chacha20poly1305_sealed(
        vault_key(password, base64_bytes(f.salt@)->0),
        base64_bytes(f.nonce@)->0,
        plaintext,
    ) == base64_bytes(f.ciphertext@)->0
}

/// The failure `decrypt` reports for `f` and `password` when nothing opens.
pub open spec fn decrypt_error(f: EncFile, password: Seq<u8>, e: EncError) -> bool {
    if base64_bytes(f.salt@) is None {
        e matches EncError::Corrupt(m) && m@ == ERR_BAD_SALT@
    } else if base64_bytes(f.nonce@) is None {
        e matches EncError::Corrupt(m) && m@ == ERR_BAD_NONCE@
    } else if base64_bytes(f.ciphertext@) is None {
        e matches EncError::Corrupt(m) && m@ == ERR_BAD_CIPHERTEXT@
    } else if base64_bytes(f.nonce@)->0.len() != NONCE_LEN {
        e matches EncError::Corrupt(m) && m@ == ERR_BAD_NONCE_LEN@
    } else if !kdf_accepts(password.len(), base64_bytes(f.salt@)->0.len()) {
        e matches EncError::Crypto(_)
    } else {
        e matches EncError::WrongPassphrase
    }
}

/// The vault key for `passphrase` and `salt`.
fn derive_key(passphrase: &[u8], salt: &[u8]) -> (r: Result<Vec<u8>, EncError>)
    ensures
        r is Ok <==> kdf_accepts(passphrase@.len(), salt@.len()),
        r matches Ok(k) ==> k@ == vault_key(passphrase@, salt@) && k@.len() == KEY_LEN,
        r matches Err(e) ==> e matches EncError::Crypto(_),
{
    match argon2id_hash(passphrase, salt, ARGON2_M, ARGON2_T, ARGON2_P, KEY_LEN) {
        Ok(k) => Ok(k),
        Err(msg) => Err(EncError::Crypto(msg)),
    }
}

/// Seals `plaintext` under `passphrase` with the given salt and nonce: the
/// file holds the current header, the Base64 text of the salt and the nonce,
/// and that of the ChaCha20-Poly1305 sealing of the plaintext under the
/// Argon2id key of the passphrase and the salt.
pub fn seal_with(passphrase: &[u8], plaintext: &[u8], salt: &[u8], nonce: &[u8]) -> (res: Result<EncFile, EncError>)
    requires
        nonce@.len() == NONCE_LEN,
        base64_input_ok(salt@.len()),
        base64_input_ok(plaintext@.len() + 16),
    ensures
        res is Ok <==> kdf_accepts(passphrase@.len(), salt@.len()) && aead_message_ok(plaintext@.len()),
        res matches Ok(f) ==> {
            &&& has_current_header(f)
            &&& f.salt@ == base64_text(salt@)
            &&& f.nonce@ == base64_text(nonce@)
            &&& f.ciphertext@ == base64_text(
                chacha20poly1305_sealed(vault_key(passphrase@, salt@), nonce@, plaintext@),
            )
            &&& chacha20poly1305_sealed(vault_key(passphrase@, salt@), nonce@, plaintext@).len()
                == plaintext@.len() + 16
        },
        res matches Err(e) ==> (if !kdf_accepts(passphrase@.len(), salt@.len()) {
            e matches EncError::Crypto(_)
        } else {
            e matches EncError::Crypto(m) && m@ == ERR_ENCRYPT_FAILED@
        }),
{
    let mut key = match derive_key(passphrase, salt) {
        Ok(k) => k,
        Err(e) => return Err(e),
    };
    let sealed = aead_seal(key.as_slice(), nonce, plaintext);
    wipe(&mut key);
    let ciphertext = match sealed {
        Ok(c) => c,
        Err(_) => return Err(EncError::Crypto(owned(ERR_ENCRYPT_FAILED))),
    };
    Ok(EncFile {
        version: ENC_FILE_VERSION,
        kdf: KdfParams { algo: owned(KDF_ALGO_ARGON2ID), m: ARGON2_M, t: ARGON2_T, p: ARGON2_P },
        salt: base64_encode(salt),
        nonce: base64_encode(nonce),
        ciphertext: base64_encode(ciphertext.as_slice()),
    })
}

/// Seals `plaintext` under `passphrase` with a fresh random salt and nonce.
pub fn encrypt(passphrase: &[u8], plaintext: &[u8]) -> (res: Result<EncFile, EncError>)
    requires
        base64_input_ok(plaintext@.len() + 16),
    ensures
        res is Ok <==> passphrase@.len() <= 0xFFFF_FFFF && aead_message_ok(plaintext@.len()),
        res matches Ok(f) ==> has_current_header(f) && is_sealing(f, passphrase@, plaintext@),
        res matches Err(e) ==> (if passphrase@.len() > 0xFFFF_FFFF {
            e matches EncError::Crypto(_)
        } else {
            e matches EncError::Crypto(m) && m@ == ERR_ENCRYPT_FAILED@
        }),
{
    let mut salt: Vec<u8> = vec![0u8; SALT_LEN];
    let mut nonce_bytes: Vec<u8> = vec![0u8; NONCE_LEN];
    let mut rng = thread_rng();
    fill_random(&mut rng, &mut salt);
    let mut rng = thread_rng();
    fill_random(&mut rng, &mut nonce_bytes);

    match seal_with(passphrase, plaintext, salt.as_slice(), nonce_bytes.as_slice()) {
        Ok(f) => {
            assert(sealed_with(f, passphrase@, plaintext@, salt@, nonce_bytes@));
            Ok(f)
        },
        Err(e) => Err(e),
    }
}

/// Opens a sealed file under `passphrase`.
///
/// A file that `encrypt` produced from a plaintext under the same passphrase
/// opens to that plaintext.
pub fn decrypt(passphrase: &[u8], file: &EncFile) -> (res: Result<Vec<u8>, EncError>)
    ensures
        forall|p: Seq<u8>| #[trigger] is_sealing(*file, passphrase@, p) ==> (res matches Ok(q) && q@ == p),
        forall|p: Seq<u8>| #[trigger] opens_to(*file, passphrase@, p) ==> (res matches Ok(q) && q@ == p),
        res matches Ok(q) ==> opens_to(*file, passphrase@, q@),
        res matches Err(e) ==> decrypt_error(*file, passphrase@, e),
{
    let salt = match base64_decode(file.salt.as_str()) {
        Ok(v) => v,
        Err(_) => return Err(EncError::Corrupt(owned(ERR_BAD_SALT))),
    };
    let nonce_bytes = match base64_decode(file.nonce.as_str()) {
        Ok(v) => v,
        Err(_) => return Err(EncError::Corrupt(owned(ERR_BAD_NONCE))),
    };
    let ciphertext = match base64_decode(file.ciphertext.as_str()) {
        Ok(v) => v,
        Err(_) => return Err(EncError::Corrupt(owned(ERR_BAD_CIPHERTEXT))),
    };
    proof {
        assert(base64_bytes(file.salt@) == Some(salt@));
        assert(base64_bytes(file.nonce@) == Some(nonce_bytes@));
        assert(base64_bytes(file.ciphertext@) == Some(ciphertext@));
    }
    if nonce_bytes.len() != NONCE_LEN {
        return Err(EncError::Corrupt(owned(ERR_BAD_NONCE_LEN)));
    }
    let mut key = match derive_key(passphrase, salt.as_slice()) {
        Ok(k) => k,
        Err(e) => return Err(e),
    };
    let opened = aead_open(key.as_slice(), nonce_bytes.as_slice(), ciphertext.as_slice());
    wipe(&mut key);
    proof {
        assert forall|p: Seq<u8>| #[trigger] is_sealing(*file, passphrase@, p) implies (opened matches Ok(
            q,
        ) && q@ == p) by {
            let (s0, n0) = choose|s0: Seq<u8>, n0: Seq<u8>| #[trigger] sealed_with(*file, passphrase@, p, s0, n0);
            assert(base64_text(s0) == file.salt@);
            assert(s0 == salt@);
            assert(base64_text(n0) == file.nonce@);
            assert(n0 == nonce_bytes@);
        }
    }
    match opened {
        Ok(p) => Ok(p),
        Err(_) => Err(EncError::WrongPassphrase),
    }
}

} // verus!
