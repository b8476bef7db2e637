use vstd::prelude::*;

verus! {

/// `std::io::Error`, carried through `AppError::Io` from the I/O layer.
#[verifier::external_type_specification]
#[verifier::external_body]
pub struct ExIoError(std::io::Error);

/// `serde_json::Error`, the failure of JSON encoding or decoding.
#[verifier::external_type_specification]
#[verifier::external_body]
pub struct ExJsonError(serde_json::Error);

/// `toml::de::Error`, the failure of parsing a TOML document.
#[verifier::external_type_specification]
#[verifier::external_body]
pub struct ExTomlDeError(toml::de::Error);

/// `toml::ser::Error`, the failure of rendering a TOML document.
#[verifier::external_type_specification]
#[verifier::external_body]
pub struct ExTomlSerError(toml::ser::Error);

/// `bip39::Error`, the failure of reading or generating a seed phrase.
#[verifier::external_type_specification]
#[verifier::external_body]
pub struct ExBip39Error(bip39::Error);

/// Failures of sealing and opening vault entries.
#[derive(Debug)]
pub enum EncError {
    WrongPassphrase,
    Corrupt(String),
    Crypto(String),
}

/// Every failure the key manager reports.
#[derive(Debug)]
pub enum AppError {
    Enc(EncError),
    Io(std::io::Error),
    Json(serde_json::Error),
    TomlDe(toml::de::Error),
    TomlSer(toml::ser::Error),
    Bip39(bip39::Error),
    InvalidName(String),
    InvalidEnv(String),
    DuplicateKey(String),
    KeyNotFound(String),
    NotActive(String),
    StillActive(String),
    NoHomeDir,
    InvalidKeypairFile(String),
    InvalidPrivateKey(String),
    ForeignSymlink(String),
    NoProjectBinding,
    Other(String),
}

} // verus!
