//! The verifier: a canary sealed under the vault passphrase, checked before
//! any passphrase is used.

use vstd::prelude::*;
use vstd::string::StringSliceAdditionalSpecFns;
use crate::constant::VERIFIER_PLAINTEXT;
use crate::encryption::{decrypt, decrypt_error, encrypt, has_current_header, is_sealing, opens_to, EncFile};
use crate::error::{AppError, EncError};
use crate::text::{join_strings, join_text, owned, texts, bytes_equal};

verus! {

/// The canary's bytes.
pub open spec fn canary() -> Seq<u8> {
    VERIFIER_PLAINTEXT.spec_bytes()
}

proof fn lemma_canary_len()
    ensures
        canary().len() == 13,
{
    reveal_strlit("sol-keymgr-v1");
    assert(vstd::utf8::is_ascii_chars(VERIFIER_PLAINTEXT@));
    vstd::utf8::is_ascii_chars_encode_utf8(VERIFIER_PLAINTEXT@);
}

/// `f` opens to some plaintext under `password`.
pub open spec fn opens_under(f: EncFile, password: Seq<u8>) -> bool {
    exists|p: Seq<u8>| #[trigger] opens_to(f, password, p)
}

/// `f` is a sealing, under `password`, of some plaintext.
pub open spec fn sealed_under(f: EncFile, password: Seq<u8>) -> bool {
    exists|p: Seq<u8>| #[trigger] is_sealing(f, password, p)
}

/// The stems of the entries that do not open under `password`, in order.
pub open spec fn mismatched_stems(entries: Seq<(String, EncFile)>, password: Seq<u8>) -> Seq<Seq<char>>
    decreases entries.len(),
{
    if entries.len() == 0 {
        Seq::empty()
    } else {
        let rest = mismatched_stems(entries.drop_last(), password);
        if opens_under(entries.last().1, password) {
            rest
        } else {
            rest.push(entries.last().0@)
        }
    }
}

/// Healing names exactly the entries that do not open under the passphrase:
/// their stems, in the order of the entries. In particular it names none
/// exactly when every entry opens, and then the vault can be healed.
pub proof fn lemma_mismatched_are_unopened(entries: Seq<(String, EncFile)>, password: Seq<u8>)
    ensures
        mismatched_stems(entries, password) == entries.filter(
            |e: (String, EncFile)| !opens_under(e.1, password),
        ).map_values(|e: (String, EncFile)| e.0@),
        mismatched_stems(entries, password).len() == 0 <==> forall|i: int|
            0 <= i < entries.len() ==> opens_under(#[trigger] entries[i].1, password),
    decreases entries.len(),
{
    let pred = |e: (String, EncFile)| !opens_under(e.1, password);
    let stem = |e: (String, EncFile)| e.0@;
    reveal(Seq::filter);
    if entries.len() > 0 {
        let d = entries.drop_last();
        lemma_mismatched_are_unopened(d, password);
        let fd = d.filter(pred);
        if pred(entries.last()) {
            assert(entries.filter(pred) == fd.push(entries.last()));
            assert(fd.push(entries.last()).map_values(stem) =~= fd.map_values(stem).push(entries.last().0@));
            assert(!opens_under(entries[entries.len() - 1].1, password));
        } else {
            assert(entries.filter(pred) == fd);
            assert forall|i: int| 0 <= i < entries.len() && (forall|j: int|
                0 <= j < d.len() ==> opens_under(#[trigger] d[j].1, password)) implies opens_under(
                #[trigger] entries[i].1,
                password,
            ) by {
                if i < d.len() {
                    assert(entries[i] == d[i]);
                }
            }
            assert forall|j: int| 0 <= j < d.len() && (forall|i: int|
                0 <= i < entries.len() ==> opens_under(#[trigger] entries[i].1, password)) implies opens_under(
                #[trigger] d[j].1,
                password,
            ) by {
                assert(entries[j] == d[j]);
            }
        }
    } else {
        assert(entries.filter(pred).map_values(stem) =~= Seq::<Seq<char>>::empty());
    }
}

/// The message for a vault that cannot be healed under the passphrase.
pub open spec fn heal_failure_message(stems: Seq<Seq<char>>) -> Seq<char> {
    "verifier missing and passphrase does not match: "@ + join_text(stems, ", "@)
        + " (mixed-passphrase vault, cannot heal)"@
}

proof fn lemma_all_open_none_mismatched(entries: Seq<(String, EncFile)>, password: Seq<u8>)
    requires
        forall|i: int| 0 <= i < entries.len() ==> opens_under(#[trigger] entries[i].1, password),
    ensures
        mismatched_stems(entries, password).len() == 0,
    decreases entries.len(),
{
    if entries.len() > 0 {
        let d = entries.drop_last();
        assert forall|i: int| 0 <= i < d.len() implies opens_under(#[trigger] d[i].1, password) by {
            assert(d[i] == entries[i]);
        }
        lemma_all_open_none_mismatched(d, password);
        assert(opens_under(entries[entries.len() - 1].1, password));
    }
}

/// Seals the canary under `passphrase`; the result is the verifier file.
pub fn create(passphrase: &[u8]) -> (res: Result<EncFile, AppError>)
    ensures
        res is Ok <==> passphrase@.len() <= 0xFFFF_FFFF,
        res matches Ok(f) ==> has_current_header(f) && is_sealing(f, passphrase@, canary()),
        res matches Err(e) ==> e matches AppError::Enc(EncError::Crypto(_)),
{
    proof {
        lemma_canary_len();
    }
    match encrypt(passphrase, VERIFIER_PLAINTEXT.as_bytes()) {
        Ok(f) => Ok(f),
        Err(e) => Err(AppError::Enc(e)),
    }
}

/// Checks `passphrase` against the verifier file `enc`.
///
/// A verifier made by `create` under a passphrase accepts that passphrase.
pub fn check(passphrase: &[u8], enc: &EncFile) -> (res: Result<(), AppError>)
    ensures
        res is Ok <==> opens_to(*enc, passphrase@, canary()),
        is_sealing(*enc, passphrase@, canary()) ==> res is Ok,
        res matches Err(e) ==> e matches AppError::Enc(ee) && (decrypt_error(*enc, passphrase@, ee) || (
        ee matches EncError::WrongPassphrase && opens_under(*enc, passphrase@))),
{
    let plain = match decrypt(passphrase, enc) {
        Ok(p) => p,
        Err(e) => return Err(AppError::Enc(e)),
    };
    if bytes_equal(plain.as_slice(), VERIFIER_PLAINTEXT.as_bytes()) {
        Ok(())
    } else {
        Err(AppError::Enc(EncError::WrongPassphrase))
    }
}

/// Decides whether `passphrase` unlocks the vault. With a verifier, it is
/// checked. Without one, an empty vault takes the passphrase and a new
/// verifier is made; a non-empty vault takes it only if every entry opens
/// under it, else the error names the entries that do not. `entries` are the
/// vault's sealed files with their stems, read when there is no verifier. A
/// new verifier, to be written, is handed back.
pub fn ensure_unlocked(
    passphrase: &[u8],
    verifier: Option<&EncFile>,
    entries: &Vec<(String, EncFile)>,
) -> (res: Result<Option<EncFile>, AppError>)
    ensures
        verifier matches Some(v) ==> (res is Ok <==> opens_to(*v, passphrase@, canary())) && (res is Ok
            ==> res matches Ok(None)),
        verifier matches Some(v) && is_sealing(*v, passphrase@, canary()) ==> res matches Ok(None),
        verifier matches Some(v) ==> (res is Err ==> (res matches Err(AppError::Enc(ee)) && (decrypt_error(
            *v,
            passphrase@,
            ee,
        ) || (ee matches EncError::WrongPassphrase && opens_under(*v, passphrase@))))),
        verifier is None && mismatched_stems(entries@, passphrase@).len() == 0 ==> (res is Ok
            <==> passphrase@.len() <= 0xFFFF_FFFF),
        verifier is None && res is Ok ==> forall|i: int|
            0 <= i < entries@.len() ==> opens_under(#[trigger] entries@[i].1, passphrase@),
        verifier is None && res is Ok ==> (res matches Ok(Some(f)) && has_current_header(f) && is_sealing(
            f,
            passphrase@,
            canary(),
        )),
        verifier is None && mismatched_stems(entries@, passphrase@).len() > 0 ==> (res matches Err(
            AppError::Other(m),
        ) && m@ == heal_failure_message(mismatched_stems(entries@, passphrase@))),
        verifier is None && passphrase@.len() <= 0xFFFF_FFFF && (forall|i: int|
            0 <= i < entries@.len() ==> sealed_under(#[trigger] entries@[i].1, passphrase@))
            ==> res matches Ok(Some(_)),
{
    match verifier {
        Some(v) => {
            return match check(passphrase, v) {
                Ok(()) => Ok(None),
                Err(e) => Err(e),
            };
        },
        None => {},
    }
    let mut mismatched: Vec<String> = Vec::new();
    let mut i: usize = 0;
    while i < entries.len()
        invariant
            i <= entries@.len(),
            texts(mismatched@) == mismatched_stems(entries@.take(i as int), passphrase@),
            forall|j: int| 0 <= j < i && sealed_under(#[trigger] entries@[j].1, passphrase@) ==> opens_under(entries@[j].1, passphrase@),
        decreases entries@.len() - i,
    {
        assert(entries@.take(i + 1).drop_last() =~= entries@.take(i as int));
        assert(entries@.take(i + 1).last() == entries@[i as int]);
        let ghost before = mismatched@;
        let r = decrypt(passphrase, &entries[i].1);
        if r.is_err() {
            mismatched.push(entries[i].0.clone());
            assert(texts(mismatched@) =~= texts(before).push(entries@[i as int].0@));
        }
        proof {
            if r is Ok {
                assert(opens_to(entries@[i as int].1, passphrase@, r->Ok_0@));
            }
            if sealed_under(entries@[i as int].1, passphrase@) {
                let p = choose|p: Seq<u8>| #[trigger] is_sealing(entries@[i as int].1, passphrase@, p);
                assert(opens_to(entries@[i as int].1, passphrase@, r->Ok_0@));
            }
        }
        i += 1;
    }
    assert(entries@.take(entries@.len() as int) =~= entries@);
    proof {
        lemma_mismatched_are_unopened(entries@, passphrase@);
    }
    proof {
        if forall|j: int| 0 <= j < entries@.len() ==> sealed_under(#[trigger] entries@[j].1, passphrase@) {
            lemma_all_open_none_mismatched(entries@, passphrase@);
        }
    }
    if mismatched.len() == 0 {
        match create(passphrase) {
            Ok(f) => Ok(Some(f)),
            Err(e) => Err(e),
        }
    } else {
        let mut m = owned("verifier missing and passphrase does not match: ");
        let joined = join_strings(&mismatched, ", ");
        m.append(joined.as_str());
        m.append(" (mixed-passphrase vault, cannot heal)");
        Err(AppError::Other(m))
    }
}

} // verus!
