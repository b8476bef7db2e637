//! The per-key solana CLI config that `env` points `SOLANA_CONFIG_FILE` at.

use vstd::prelude::*;
use crate::text::{has_prefix, join_strings, join_text, lines, lines_of, owned, starts_with, texts, trim_start, trim_start_text};

verus! {

/// The config written when the user has no solana CLI config of their own.
pub const DEFAULT_SOLANA_CONFIG: &'static str = "json_rpc_url: \"https://api.mainnet-beta.solana.com\"\nwebsocket_url: \"\"\naddress_labels:\n  \"11111111111111111111111111111111\": System Program\ncommitment: confirmed\n";

/// A config line that sets the keypair path.
pub open spec fn is_keypair_line(l: Seq<char>) -> bool {
    has_prefix(trim_start_text(l), "keypair_path:"@)
}

/// The line that sets the keypair path to `path`.
pub open spec fn keypair_line(path: Seq<char>) -> Seq<char> {
    "keypair_path: "@ + path
}

/// The lines with every keypair line replaced by `kl`.
pub open spec fn replace_keypair_lines(ls: Seq<Seq<char>>, kl: Seq<char>) -> Seq<Seq<char>> {
    ls.map_values(|l: Seq<char>| if is_keypair_line(l) { kl } else { l })
}

/// The config `base` with its keypair path set to `path`: each keypair line
/// replaced, one appended if there was none, lines ended by a line break.
pub open spec fn config_with_keypair(base: Seq<char>, path: Seq<char>) -> Seq<char> {
    let ls = lines_of(base);
    let kl = keypair_line(path);
    let out = replace_keypair_lines(ls, kl);
    let all = if exists|i: int| 0 <= i < ls.len() && #[trigger] is_keypair_line(ls[i]) {
        out
    } else {
        out.push(kl)
    };
    join_text(all, "\n"@) + "\n"@
}

/// The config `env` writes is the base config's lines, each ended by a line
/// break, with every line that starts with `keypair_path:` once its leading
/// white space is removed replaced by `keypair_path: <path>` and every other
/// line kept; a keypair line is appended only when the base has none.
pub proof fn lemma_config_replaces_every_keypair_line(base: Seq<char>, path: Seq<char>)
    ensures
        exists|out: Seq<Seq<char>>|
            {
                &&& config_with_keypair(base, path) == join_text(out, "\n"@) + "\n"@
                &&& forall|i: int|
                    0 <= i < lines_of(base).len() ==> #[trigger] out[i] == if has_prefix(
                        trim_start_text(lines_of(base)[i]),
                        "keypair_path:"@,
                    ) {
                        "keypair_path: "@ + path
                    } else {
                        lines_of(base)[i]
                    }
                &&& if exists|i: int|
                    0 <= i < lines_of(base).len() && has_prefix(
                        trim_start_text(#[trigger] lines_of(base)[i]),
                        "keypair_path:"@,
                    ) {
                    out.len() == lines_of(base).len()
                } else {
                    out.len() == lines_of(base).len() + 1 && out.last() == "keypair_path: "@ + path
                }
            },
{
    let ls = lines_of(base);
    let kl = keypair_line(path);
    let replaced = replace_keypair_lines(ls, kl);
    let any = exists|i: int| 0 <= i < ls.len() && #[trigger] is_keypair_line(ls[i]);
    let all = if any {
        replaced
    } else {
        replaced.push(kl)
    };
    assert(config_with_keypair(base, path) == join_text(all, "\n"@) + "\n"@);
    assert forall|i: int| 0 <= i < ls.len() implies #[trigger] all[i] == if has_prefix(
        trim_start_text(ls[i]),
        "keypair_path:"@,
    ) {
        "keypair_path: "@ + path
    } else {
        ls[i]
    } by {
        assert(all[i] == replaced[i]);
    }
    let law_any = exists|i: int|
        0 <= i < ls.len() && has_prefix(trim_start_text(#[trigger] ls[i]), "keypair_path:"@);
    if any {
        let w = choose|i: int| 0 <= i < ls.len() && #[trigger] is_keypair_line(ls[i]);
        assert(has_prefix(trim_start_text(ls[w]), "keypair_path:"@));
        assert(law_any);
        assert(all.len() == ls.len());
    } else {
        assert(!law_any) by {
            if law_any {
                let w = choose|i: int|
                    0 <= i < ls.len() && has_prefix(trim_start_text(#[trigger] ls[i]), "keypair_path:"@);
                assert(is_keypair_line(ls[w]));
            }
        }
        assert(all.len() == ls.len() + 1 && all.last() == kl);
    }
    assert(kl == "keypair_path: "@ + path);
}

/// Sets the keypair path of the solana CLI config text `base` to `keypair_path`.
pub fn solana_config_with_keypair(base: &str, keypair_path: &str) -> (r: String)
    ensures
        r@ == config_with_keypair(base@, keypair_path@),
{
    let mut kl = owned("keypair_path: ");
    kl.append(keypair_path);
    let ls = lines(base);
    let ghost kls = lines_of(base@);
    let mut found = false;
    let mut out: Vec<String> = Vec::new();
    let mut i: usize = 0;
    while i < ls.len()
        invariant
            i <= ls@.len(),
            texts(ls@) == kls,
            kl@ == keypair_line(keypair_path@),
            texts(out@) == replace_keypair_lines(kls.take(i as int), kl@),
            found == exists|j: int| 0 <= j < i && #[trigger] is_keypair_line(kls[j]),
        decreases ls@.len() - i,
    {
        let ghost before = out@;
        assert(kls[i as int] == ls@[i as int]@);
        let t = trim_start(ls[i].as_str());
        let is_kp = starts_with(t.as_str(), "keypair_path:");
        assert(is_kp == is_keypair_line(kls[i as int]));
        let line = if is_kp {
            kl.clone()
        } else {
            ls[i].clone()
        };
        assert(line@ == (if is_keypair_line(kls[i as int]) { kl@ } else { kls[i as int] }));
        out.push(line);
        assert(texts(out@) =~= texts(before).push(line@));
        assert(kls.take(i + 1) =~= kls.take(i as int).push(kls[i as int]));
        assert(replace_keypair_lines(kls.take(i + 1), kl@) =~= replace_keypair_lines(kls.take(i as int), kl@).push(line@));
        if is_kp {
            found = true;
        }
        i += 1;
    }
    assert(kls.take(ls@.len() as int) =~= kls);
    if !found {
        let ghost before = out@;
        out.push(kl);
        assert(texts(out@) =~= texts(before).push(keypair_line(keypair_path@)));
    }
    let mut r = join_strings(&out, "\n");
    r.append("\n");
    r
}

} // verus!
