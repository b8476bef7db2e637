//! What `list` shows.

use vstd::prelude::*;
use crate::vault::env::Env;
use crate::vault::index::{record_in_env, records, Index, KeyMeta, KeyRecord};
use crate::vault::paths::{join, join_path, Paths};

verus! {

/// The records `list` shows: all, or those of one environment.
pub open spec fn listed(recs: Seq<KeyRecord>, env_filter: Option<Env>) -> Seq<KeyRecord> {
    match env_filter {
        None => recs,
        Some(e) => recs.filter(|r: KeyRecord| record_in_env(r, e)),
    }
}

/// Without a filter `list` shows every record of the index, in index order;
/// with one it shows only records of that environment, each taken from the
/// index, and every record of that environment is among them.
pub proof fn lemma_listed_records(recs: Seq<KeyRecord>, e: Env)
    ensures
        listed(recs, None) == recs,
        forall|i: int| 0 <= i < listed(recs, Some(e)).len() ==> record_in_env(#[trigger] listed(recs, Some(e))[i], e)
            && recs.contains(listed(recs, Some(e))[i]),
        forall|i: int| 0 <= i < recs.len() && record_in_env(#[trigger] recs[i], e) ==> listed(recs, Some(e)).contains(recs[i]),
{
    broadcast use vstd::seq_lib::group_filter_ensures;

    let f = listed(recs, Some(e));
    assert forall|i: int| 0 <= i < f.len() implies record_in_env(#[trigger] f[i], e) && recs.contains(f[i]) by {
        assert(f.contains(f[i]));
        recs.lemma_filter_contains_rev(|r: KeyRecord| record_in_env(r, e), f[i]);
    }
}

/// The keys `list` shows, in index order.
pub fn listed_keys(index: &Index, env_filter: Option<Env>) -> (r: Vec<KeyMeta>)
    ensures
        records(r@) == listed(index@, env_filter),
{
    match env_filter {
        Some(e) => index.for_env(e),
        None => {
            let mut out: Vec<KeyMeta> = Vec::new();
            let mut i: usize = 0;
            while i < index.keys.len()
                invariant
                    i <= index@.len(),
                    records(out@) == index@.take(i as int),
                decreases index@.len() - i,
            {
                let ghost before = out@;
                let c = index.keys[i].clone();
                out.push(c);
                assert(records(out@) =~= records(before).push(index@[i as int]));
                assert(index@.take(i + 1) =~= index@.take(i as int).push(index@[i as int]));
                assert(records(out@) =~= index@.take(i + 1));
                i += 1;
            }
            assert(index@.take(index@.len() as int) =~= index@);
            out
        },
    }
}

/// The active-set file `list` looks for: `active/{env}_{name}.json`.
pub fn listed_active_path(paths: &Paths, k: &KeyMeta) -> (r: String)
    ensures
        r@ == join_path(join_path(paths.root_text(), "active"@), k.env@ + "_"@ + k.name@ + ".json"@),
{
    let mut file = k.env.clone();
    file.append("_");
    file.append(k.name.as_str());
    file.append(".json");
    join(paths.active_dir().as_str(), file.as_str())
}

/// `env/name  pubkey  created time`, tagged ` [active]` when the key is in the active set.
pub open spec fn list_line_text(r: KeyRecord, active: bool) -> Seq<char> {
    r.env + "/"@ + r.name + "  "@ + r.pubkey + "  created "@ + r.created_at + (if active {
        " [active]"@
    } else {
        ""@
    })
}

/// The line `list` prints for a key.
pub fn list_line(k: &KeyMeta, active: bool) -> (r: String)
    ensures
        r@ == list_line_text(k@, active),
{
    let mut r = k.env.clone();
    r.append("/");
    r.append(k.name.as_str());
    r.append("  ");
    r.append(k.pubkey.as_str());
    r.append("  created ");
    r.append(k.created_at.as_str());
    if active {
        r.append(" [active]");
    } else {
        r.append("");
    }
    r
}

} // verus!
