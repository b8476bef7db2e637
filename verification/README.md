# keymgr

A manager for Solana keypairs. Keys are sealed in a vault under one
passphrase (Argon2id key derivation, ChaCha20-Poly1305), decrypted on demand
into an "active set", and the solana CLI's default keypair is a symlink into
that set. A project can name its key in a `.keymgr.toml`.

## Layout

- `src/` — the library, verified with Verus: key addresses and their text
  forms, the vault index, the on-disk layout, sealing and opening entries,
  the passphrase verifier and its healing, project bindings, and the
  decisions each subcommand makes. Calls into outside crates (argon2,
  chacha20poly1305, base64ct, rand, zeroize, bip39, solana-keypair, toml,
  serde_json, directories) go through small trusted wrappers whose contracts
  are stated in their doc comments.
- `tests/` — tests of the library on concrete values.
- `app/` — the command line: argument parsing (clap), prompts (dialoguer,
  rpassword), file and symlink I/O, JSON files (serde), and error display
  (thiserror).
