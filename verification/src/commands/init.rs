//! How `init` finds the solana CLI's default keypair file.

use vstd::prelude::*;
use crate::text::owned;
use crate::vault::env::{Env, KeyAddr};
use crate::vault::paths::{path_starts_with, starts_with_path};

verus! {

/// What is at `~/.config/solana/id.json`.
#[derive(Debug, Clone, Copy, PartialEq, Eq, Structural)]
pub enum State {
    /// Nothing.
    Missing,
    /// A symlink into the active set.
    OurSymlink,
    /// A symlink elsewhere, or something that is neither symlink nor file.
    ForeignSymlink,
    /// A plain keypair file.
    RegularFile,
}

/// The state of the default keypair path: `present` whether anything is
/// there, `link_target` the resolved target when it is a symlink, and
/// `is_file` whether it is a regular file.
pub open spec fn solana_id_state(
    present: bool,
    link_target: Option<Seq<char>>,
    active_dir: Seq<char>,
    is_file: bool,
) -> State {
    if !present {
        State::Missing
    } else {
        match link_target {
            Some(t) => if path_starts_with(t, active_dir) {
                State::OurSymlink
            } else {
                State::ForeignSymlink
            },
            None => if is_file {
                State::RegularFile
            } else {
                State::ForeignSymlink
            },
        }
    }
}

/// How the default keypair path is classified: nothing present is missing;
/// a present path with a link target is a symlink whatever `is_file` says
/// (the target of a link into the active set is itself a file), ours exactly
/// when the target lies under the active set, component by component, and
/// foreign otherwise; a regular file is reported exactly for a present path
/// that is no symlink and is a file.
pub proof fn lemma_state_follows_the_link(
    present: bool,
    link_target: Option<Seq<char>>,
    active_dir: Seq<char>,
    is_file: bool,
)
    ensures
        !present ==> solana_id_state(present, link_target, active_dir, is_file) == State::Missing,
        match link_target {
            Some(t) => present ==> solana_id_state(present, link_target, active_dir, is_file) == (if path_starts_with(
                t,
                active_dir,
            ) {
                State::OurSymlink
            } else {
                State::ForeignSymlink
            }),
            None => true,
        },
        (solana_id_state(present, link_target, active_dir, is_file) == State::RegularFile) <==> (present
            && link_target is None && is_file),
{
}

/// Classifies the default keypair path from what the file system reports.
pub fn detect_state(present: bool, link_target: Option<&str>, active_dir: &str, is_file: bool) -> (s: State)
    ensures
        s == solana_id_state(
            present,
            match link_target {
                Some(t) => Some(t@),
                None => None,
            },
            active_dir@,
            is_file,
        ),
{
    if !present {
        return State::Missing;
    }
    match link_target {
        Some(t) => if starts_with_path(t, active_dir) {
            State::OurSymlink
        } else {
            State::ForeignSymlink
        },
        None => if is_file {
            State::RegularFile
        } else {
            State::ForeignSymlink
        },
    }
}

/// `local/default`, the address `init` imports an existing keypair as.
pub fn default_addr() -> (a: KeyAddr)
    ensures
        a.env == Env::Local,
        a.name@ == "default"@,
{
    KeyAddr { env: Env::Local, name: owned("default") }
}

} // verus!
