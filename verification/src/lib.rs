//! Verified core of a keypair vault: key addresses, the vault index, the
//! on-disk layout, passphrase-based sealing of entries, and the decisions the
//! command line front end makes around them.

pub mod commands;
pub mod constant;
pub mod encryption;
pub mod error;
pub mod keypair;
pub mod text;
pub mod vault;
