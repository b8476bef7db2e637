use vstd::prelude::*;

verus! {

pub const DEFAULT_PATH: &'static str = "~/.config/solana/id.json";

pub const SALT_LEN: usize = 16;
pub const NONCE_LEN: usize = 12;
pub const KEY_LEN: usize = 32;

pub const ARGON2_M: u32 = 65536;
pub const ARGON2_T: u32 = 3;
pub const ARGON2_P: u32 = 1;

pub const KDF_ALGO_ARGON2ID: &'static str = "argon2id";
pub const ENC_FILE_VERSION: u32 = 1;

pub const ERR_ENCRYPT_FAILED: &'static str = "encryption failed";
pub const ERR_BAD_SALT: &'static str = "bad salt";
pub const ERR_BAD_NONCE: &'static str = "bad nonce";
pub const ERR_BAD_CIPHERTEXT: &'static str = "bad ciphertext";
pub const ERR_BAD_NONCE_LEN: &'static str = "bad nonce length";

// vault layout under the home directory
pub const APP_DIR_NAME: &'static str = ".sol-keymgr";
pub const VAULT_DIR_NAME: &'static str = "vault";
pub const ACTIVE_DIR_NAME: &'static str = "active";
pub const BACKUP_DIR_NAME: &'static str = "backup";
pub const INDEX_FILE_NAME: &'static str = "index.json";
pub const VERIFIER_FILE_NAME: &'static str = "verifier.enc";
pub const CONFIG_FILE_NAME: &'static str = "config.toml";
pub const SOLANA_ID_BACKUP_NAME: &'static str = "id.json.bak";

// canary sealed under the vault passphrase
pub const VERIFIER_PLAINTEXT: &'static str = "sol-keymgr-v1";

// key naming
pub const ENVS: [&'static str; 3] = ["local", "dev", "prod"];
pub const NAME_MAX_LEN: usize = 32;

// project binding
pub const PROJECT_TOML_NAME: &'static str = ".keymgr.toml";

} // verus!
