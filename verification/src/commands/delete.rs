//! The checks `delete` makes before removing a key.

use vstd::prelude::*;
use crate::error::AppError;
use crate::text::{chars_equal, chars_of, owned};
use crate::vault::env::{addr_text, KeyAddr};
use crate::vault::index::{has_match, Index};

verus! {

/// A key may be deleted only if the index holds it and it is not active.
pub fn check_deletable(index: &Index, addr: &KeyAddr, active: bool) -> (res: Result<(), AppError>)
    ensures
        !has_match(index@, *addr) ==> (res matches Err(AppError::KeyNotFound(m)) && m@ == addr_text(addr.env, addr.name@)),
        has_match(index@, *addr) && active ==> (res matches Err(AppError::StillActive(m)) && m@ == addr_text(addr.env, addr.name@)),
        has_match(index@, *addr) && !active ==> res is Ok,
{
    if !index.contains(addr) {
        return Err(AppError::KeyNotFound(addr.to_string()));
    }
    if active {
        return Err(AppError::StillActive(addr.to_string()));
    }
    Ok(())
}

/// The prompt asking the user to retype the address.
pub fn confirmation_prompt(addr: &KeyAddr) -> (r: String)
    ensures
        r@ == "retype '"@ + addr_text(addr.env, addr.name@) + "' to confirm delete"@,
{
    let mut r = owned("retype '");
    r.append(addr.to_string().as_str());
    r.append("' to confirm delete");
    r
}

/// The deletion goes ahead only if the user typed the address exactly.
pub fn check_confirmation(typed: &str, addr: &KeyAddr) -> (res: Result<(), AppError>)
    ensures
        res is Ok <==> typed@ == addr_text(addr.env, addr.name@),
        res matches Err(e) ==> e matches AppError::Other(m) && m@ == "confirmation did not match, aborted"@,
{
    let want = addr.to_string();
    if chars_equal(&chars_of(typed), want.as_str()) {
        Ok(())
    } else {
        Err(AppError::Other(owned("confirmation did not match, aborted")))
    }
}

} // verus!
