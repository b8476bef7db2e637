//! What `current` shows for each file of the active set.

use vstd::prelude::*;
use crate::text::owned;
use crate::vault::env::{stem_text, KeyAddr};
use crate::vault::index::{record_matches, Index, KeyRecord};

verus! {

/// The stem a record's active file has: `env_name`.
pub open spec fn record_stem(r: KeyRecord) -> Seq<char> {
    r.env + "_"@ + r.name
}

/// A record is matched by the stem of its key's active file: the stem
/// `Paths::active_entry` names that file by (`stem_text`), its environment,
/// `_`, then its name unchanged.
pub proof fn lemma_record_stem_is_file_stem(r: KeyRecord, addr: KeyAddr)
    requires
        record_matches(r, addr),
    ensures
        record_stem(r) == stem_text(addr.env, addr.name@),
{
}

/// The public key shown for the active file with stem `stem`: that of the
/// first record with this stem, or `?(orphan)` when no record has it.
pub fn pubkey_for_stem(index: &Index, stem: &str) -> (r: String)
    ensures
        (exists|i: int| 0 <= i < index@.len() && #[trigger] record_stem(index@[i]) == stem@) ==> exists|i: int|
            0 <= i < index@.len() && record_stem(index@[i]) == stem@ && r@ == index@[i].pubkey && forall|j: int|
                0 <= j < i ==> #[trigger] record_stem(index@[j]) != stem@,
        (forall|i: int| 0 <= i < index@.len() ==> #[trigger] record_stem(index@[i]) != stem@) ==> r@ == "?(orphan)"@,
{
    let mut i: usize = 0;
    while i < index.keys.len()
        invariant
            i <= index@.len(),
            forall|j: int| 0 <= j < i ==> #[trigger] record_stem(index@[j]) != stem@,
        decreases index@.len() - i,
    {
        let k = &index.keys[i];
        let mut s = k.env.clone();
        s.append("_");
        s.append(k.name.as_str());
        assert(s@ == record_stem(index@[i as int]));
        let same = crate::text::chars_equal(&crate::text::chars_of(s.as_str()), stem);
        if same {
            return k.pubkey.clone();
        }
        i += 1;
    }
    owned("?(orphan)")
}

} // verus!
