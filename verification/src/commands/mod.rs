//! The command line's subcommands and the decisions they make.

pub mod current;
pub mod delete;
pub mod env_cmd;
pub mod import_key;
pub mod init;
pub mod list;
pub mod new;
pub mod pubkey;
pub mod recover;

use vstd::prelude::*;

verus! {

/// The parsed command line.
pub struct KeyMgr {
    pub command: Commands,
}

/// The subcommands, with their arguments (paths as text).
pub enum Commands {
    /// Set up the vault; with `undo`, restore the original keypair file.
    Init { undo: bool },
    /// Generate, seal and store a new keypair.
    New { addr: Option<String>, no_toml: bool },
    /// Import a solana-keygen keypair file.
    Import { file: String, addr: Option<String> },
    /// Import a base58 private key.
    ImportKey { addr: Option<String> },
    /// Recover a keypair from its seed phrase.
    Recover { addr: Option<String> },
    /// Write a key out as a solana-keygen file.
    Export { addr: String, outfile: Option<String> },
    /// Remove a key from the vault.
    Delete { addr: String },
    /// Decrypt a key into the active set.
    Activate { addr: String },
    /// Wipe keys from the active set.
    Kill { addr: Option<String>, all: bool },
    /// Activate a key, point the default keypair at it and bind the project.
    Use { addr: Option<String>, no_toml: bool },
    /// Print the shell exports for an active key.
    Env { addr: String },
    /// Show the default keypair and the active set.
    Current,
    /// List the vault's keys.
    List { env: Option<String>, json: bool },
    /// Print the public key of the project's key.
    Pubkey { all: bool },
}

} // verus!
