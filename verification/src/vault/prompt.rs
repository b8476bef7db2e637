//! What the interactive pickers offer and what a choice stands for.

use vstd::prelude::*;
use crate::error::AppError;
use crate::text::{owned, texts};
use crate::vault::env::{env_of_text, invalid_env_message, Env, KeyAddr};
use crate::vault::index::{Index, KeyMeta, KeyRecord};

verus! {

/// `env/name (pubkey)`, how a key is shown in a picker.
pub open spec fn label_text(r: KeyRecord) -> Seq<char> {
    r.env + "/"@ + r.name + " ("@ + r.pubkey + ")"@
}

/// The picker label of a key.
pub fn label(k: &KeyMeta) -> (r: String)
    ensures
        r@ == label_text(k@),
{
    let mut r = k.env.clone();
    r.append("/");
    r.append(k.name.as_str());
    r.append(" (");
    r.append(k.pubkey.as_str());
    r.append(")");
    r
}

/// The picker labels of `keys`, in order; refuses an empty list with `empty_message`.
pub fn labels(keys: &Vec<KeyMeta>, empty_message: &str) -> (res: Result<Vec<String>, AppError>)
    ensures
        keys@.len() == 0 ==> (res matches Err(AppError::Other(m)) && m@ == empty_message@),
        keys@.len() > 0 ==> (res matches Ok(ls) && texts(ls@) == keys@.map_values(|k: KeyMeta| label_text(k@))),
{
    if keys.len() == 0 {
        return Err(AppError::Other(owned(empty_message)));
    }
    let mut out: Vec<String> = Vec::new();
    let mut i: usize = 0;
    while i < keys.len()
        invariant
            i <= keys@.len(),
            texts(out@) == keys@.take(i as int).map_values(|k: KeyMeta| label_text(k@)),
        decreases keys@.len() - i,
    {
        let ghost before = out@;
        let l = label(&keys[i]);
        out.push(l);
        assert(texts(out@) =~= texts(before).push(label_text(keys@[i as int]@)));
        assert(keys@.take(i + 1) =~= keys@.take(i as int).push(keys@[i as int]));
        assert(texts(out@) =~= keys@.take(i + 1).map_values(|k: KeyMeta| label_text(k@)));
        i += 1;
    }
    assert(keys@.take(keys@.len() as int) =~= keys@);
    Ok(out)
}

/// The picker labels of the whole index; an empty vault is an error.
pub fn index_labels(index: &Index) -> (res: Result<Vec<String>, AppError>)
    ensures
        index@.len() == 0 ==> (res matches Err(AppError::Other(m)) && m@ == "vault is empty"@),
        index@.len() > 0 ==> (res matches Ok(ls) && texts(ls@) == index@.map_values(|r: KeyRecord| label_text(r))),
{
    let r = labels(&index.keys, "vault is empty");
    proof {
        if index@.len() > 0 {
            let ls = r->Ok_0;
            assert(texts(ls@) =~= index@.map_values(|r: KeyRecord| label_text(r)));
        }
    }
    r
}

/// The address of a key's record: its environment read from the text, its name.
pub fn meta_addr(k: &KeyMeta) -> (res: Result<KeyAddr, AppError>)
    ensures
        match env_of_text(k.env@) {
            Some(e) => res matches Ok(a) && a.env == e && a.name@ == k.name@,
            None => res matches Err(AppError::InvalidEnv(m)) && m@ == invalid_env_message(k.env@),
        },
{
    let env = match Env::from_name(k.env.as_str()) {
        Ok(e) => e,
        Err(e) => return Err(e),
    };
    Ok(KeyAddr { env, name: k.name.clone() })
}

} // verus!
