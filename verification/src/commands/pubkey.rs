//! The public key of a stored key.

use vstd::prelude::*;
use crate::error::AppError;
use crate::vault::env::{addr_text, KeyAddr};
use crate::vault::index::{first_match, has_match, Index};

verus! {

/// The public key recorded for `addr` (its first record); refuses an
/// address the index does not hold.
pub fn pubkey_of(index: &Index, addr: &KeyAddr) -> (res: Result<String, AppError>)
    ensures
        has_match(index@, *addr) <==> res is Ok,
        res matches Ok(p) ==> exists|i: int| first_match(index@, *addr, i) && p@ == index@[i].pubkey,
        res matches Err(e) ==> e matches AppError::KeyNotFound(m) && m@ == addr_text(addr.env, addr.name@),
{
    match index.find(addr) {
        Some(k) => Ok(k.pubkey.clone()),
        None => Err(AppError::KeyNotFound(addr.to_string())),
    }
}

} // verus!
