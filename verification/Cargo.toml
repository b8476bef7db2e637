[package]
name = "keymgr"
version = "0.1.0"
edition = "2021"
publish = false

[dependencies]
anstyle = "1"
argon2 = "0.5"
base64ct = { version = "1", features = ["alloc"] }
bip39 = { version = "2", features = ["rand"] }
chacha20poly1305 = "0.10"
clap = { version = "4", features = ["derive"] }
dialoguer = "0.11"
directories = "6"
rand = "*"
rpassword = "7"
serde = { version = "1", features = ["derive"] }
serde_json = "1"
solana-keypair = { version = "*", features = ["seed-derivable"] }
thiserror = "2"
toml = "*"
zeroize = "1"
