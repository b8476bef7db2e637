//! The vault index: one record per stored key.

use vstd::prelude::*;
use crate::text::push_decimal;
use crate::text::decimal_text;
use crate::vault::env::{env_text, lemma_env_text_injective, Env, KeyAddr};

verus! {

/// `std::time::SystemTime`, a reading of the wall clock.
#[verifier::external_type_specification]
#[verifier::external_body]
pub struct ExSystemTime(std::time::SystemTime);

/// `std::time::SystemTimeError`, a clock reading before the epoch.
#[verifier::external_type_specification]
#[verifier::external_body]
pub struct ExSystemTimeError(std::time::SystemTimeError);

/// `SystemTime::now`: the current wall-clock time. Nothing is promised of
/// the reading.
#[verifier::external_body]
fn system_time_now() -> std::time::SystemTime {
    std::time::SystemTime::now()
}

/// `SystemTime::duration_since` applied to `UNIX_EPOCH`: the time elapsed
/// since the epoch, or an error for a reading before it. Nothing is promised
/// of the value, which depends on the clock.
#[verifier::external_body]
fn duration_since_epoch(
    t: &std::time::SystemTime,
) -> Result<std::time::Duration, std::time::SystemTimeError> {
    t.duration_since(std::time::UNIX_EPOCH)
}

/// `Duration::as_secs`: the whole seconds of a duration. Nothing is stated of
/// the value, as the duration is opaque here.
#[verifier::external_body]
fn duration_secs(d: &std::time::Duration) -> u64 {
    d.as_secs()
}

/// The metadata of one stored key, as kept in `index.json`.
pub struct KeyMeta {
    pub name: String,
    pub env: String,
    pub pubkey: String,
    pub created_at: String,
}

/// The abstract content of a `KeyMeta`.
pub struct KeyRecord {
    pub name: Seq<char>,
    pub env: Seq<char>,
    pub pubkey: Seq<char>,
    pub created_at: Seq<char>,
}

impl View for KeyMeta {
    type V = KeyRecord;

    open spec fn view(&self) -> KeyRecord {
        KeyRecord {
            name: self.name@,
            env: self.env@,
            pubkey: self.pubkey@,
            created_at: self.created_at@,
        }
    }
}

impl Clone for KeyMeta {
    fn clone(&self) -> (r: KeyMeta)
        ensures
            r@ == self@,
    {
        KeyMeta {
            name: self.name.clone(),
            env: self.env.clone(),
            pubkey: self.pubkey.clone(),
            created_at: self.created_at.clone(),
        }
    }
}

/// The records of a sequence of key metadata.
pub open spec fn records(keys: Seq<KeyMeta>) -> Seq<KeyRecord> {
    keys.map_values(|k: KeyMeta| k@)
}

/// The record stands for the key at `addr`.
pub open spec fn record_matches(r: KeyRecord, addr: KeyAddr) -> bool {
    r.env == env_text(addr.env) && r.name == addr.name@
}

/// The record belongs to environment `env`.
pub open spec fn record_in_env(r: KeyRecord, env: Env) -> bool {
    r.env == env_text(env)
}

/// `i` is the first position of `recs` that stands for `addr`.
pub open spec fn first_match(recs: Seq<KeyRecord>, addr: KeyAddr, i: int) -> bool {
    &&& 0 <= i < recs.len()
    &&& record_matches(recs[i], addr)
    &&& forall|j: int| 0 <= j < i ==> !record_matches(#[trigger] recs[j], addr)
}

/// Some record of `recs` stands for `addr`.
pub open spec fn has_match(recs: Seq<KeyRecord>, addr: KeyAddr) -> bool {
    exists|i: int| 0 <= i < recs.len() && record_matches(#[trigger] recs[i], addr)
}

/// The record `insert` adds for `addr`.
pub open spec fn new_record(addr: KeyAddr, pubkey: Seq<char>, created_at: Seq<char>) -> KeyRecord {
    KeyRecord { name: addr.name@, env: env_text(addr.env), pubkey, created_at }
}

/// A creation time as written by the index: whole seconds since the epoch.
pub open spec fn is_timestamp_text(t: Seq<char>) -> bool {
    exists|secs: u64| t == decimal_text(secs as nat)
}

/// A key is present right after its record is inserted.
pub proof fn lemma_insert_then_contains(
    recs: Seq<KeyRecord>,
    addr: KeyAddr,
    pubkey: Seq<char>,
    created_at: Seq<char>,
)
    ensures
        has_match(recs.push(new_record(addr, pubkey, created_at)), addr),
{
    let s = recs.push(new_record(addr, pubkey, created_at));
    assert(record_matches(s[recs.len() as int], addr));
}

/// Inserting a record leaves the presence of every other address unchanged.
pub proof fn lemma_insert_keeps_others(
    recs: Seq<KeyRecord>,
    addr: KeyAddr,
    other: KeyAddr,
    pubkey: Seq<char>,
    created_at: Seq<char>,
)
    requires
        !(addr.env == other.env && addr.name@ == other.name@),
    ensures
        has_match(recs.push(new_record(addr, pubkey, created_at)), other) == has_match(recs, other),
{
    lemma_env_text_injective(addr.env, other.env);
    let s = recs.push(new_record(addr, pubkey, created_at));
    if has_match(recs, other) {
        let i = choose|i: int| 0 <= i < recs.len() && record_matches(#[trigger] recs[i], other);
        assert(s[i] == recs[i]);
    }
    if has_match(s, other) {
        let i = choose|i: int| 0 <= i < s.len() && record_matches(#[trigger] s[i], other);
        assert(i < recs.len());
        assert(recs[i] == s[i]);
    }
}

/// No record at `addr` survives its removal.
pub proof fn lemma_remove_then_absent(recs: Seq<KeyRecord>, addr: KeyAddr)
    ensures
        !has_match(recs.filter(|r: KeyRecord| !record_matches(r, addr)), addr),
{
    broadcast use vstd::seq_lib::group_filter_ensures;

    let f = recs.filter(|r: KeyRecord| !record_matches(r, addr));
    assert forall|i: int| 0 <= i < f.len() implies !record_matches(#[trigger] f[i], addr) by {
        assert((|r: KeyRecord| !record_matches(r, addr))(f[i]));
    }
}

/// Removing the key at `addr` leaves the presence of every other address unchanged.
pub proof fn lemma_remove_keeps_others(recs: Seq<KeyRecord>, addr: KeyAddr, other: KeyAddr)
    requires
        !(addr.env == other.env && addr.name@ == other.name@),
    ensures
        has_match(recs.filter(|r: KeyRecord| !record_matches(r, addr)), other) == has_match(recs, other),
{
    broadcast use vstd::seq_lib::group_filter_ensures;

    lemma_env_text_injective(addr.env, other.env);
    let pred = |r: KeyRecord| !record_matches(r, addr);
    let f = recs.filter(pred);
    if has_match(recs, other) {
        let i = choose|i: int| 0 <= i < recs.len() && record_matches(#[trigger] recs[i], other);
        assert(pred(recs[i]));
        assert(f.contains(recs[i]));
        let j = choose|j: int| 0 <= j < f.len() && f[j] == recs[i];
        assert(record_matches(f[j], other));
    }
    if has_match(f, other) {
        let j = choose|j: int| 0 <= j < f.len() && record_matches(#[trigger] f[j], other);
        assert(f.contains(f[j]));
        recs.lemma_filter_contains_rev(pred, f[j]);
        let i = choose|i: int| 0 <= i < recs.len() && recs[i] == f[j];
        assert(record_matches(recs[i], other));
    }
}

/// All keys known to the vault.
pub struct Index {
    pub keys: Vec<KeyMeta>,
}

impl View for Index {
    type V = Seq<KeyRecord>;

    open spec fn view(&self) -> Seq<KeyRecord> {
        records(self.keys@)
    }
}

/// The current time as decimal seconds since the epoch, `0` for a clock
/// before the epoch.
fn now_rfc3339() -> (r: String)
    ensures
        is_timestamp_text(r@),
{
    let now = system_time_now();
    let secs = match duration_since_epoch(&now) {
        Ok(d) => duration_secs(&d),
        Err(_) => 0,
    };
    let mut r = String::new();
    push_decimal(secs, &mut r);
    assert(r@ == decimal_text(secs as nat));
    r
}

impl Index {
    /// An index with no keys.
    pub fn new() -> (r: Index)
        ensures
            r@ == Seq::<KeyRecord>::empty(),
    {
        Index { keys: Vec::new() }
    }

    fn position(&self, addr: &KeyAddr) -> (r: Option<usize>)
        ensures
            match r {
                Some(i) => first_match(self@, *addr, i as int),
                None => !has_match(self@, *addr),
            },
    {
        let env = addr.env.to_string();
        let mut i: usize = 0;
        while i < self.keys.len()
            invariant
                i <= self.keys@.len(),
                env@ == env_text(addr.env),
                forall|j: int| 0 <= j < i ==> !record_matches(#[trigger] self@[j], *addr),
            decreases self.keys@.len() - i,
        {
            let k = &self.keys[i];
            if k.env == env && k.name == addr.name {
                return Some(i);
            }
            i += 1;
        }
        None
    }

    /// The first key stored at `addr`, if any.
    pub fn find(&self, addr: &KeyAddr) -> (r: Option<&KeyMeta>)
        ensures
            match r {
                Some(k) => exists|i: int| first_match(self@, *addr, i) && k@ == self@[i],
                None => !has_match(self@, *addr),
            },
    {
        match self.position(addr) {
            Some(i) => Some(&self.keys[i]),
            None => None,
        }
    }

    /// Whether a key is stored at `addr`.
    pub fn contains(&self, addr: &KeyAddr) -> (r: bool)
        ensures
            r == has_match(self@, *addr),
    {
        self.position(addr).is_some()
    }

    /// Appends the record of a key created at `created_at`.
    pub fn insert_created_at(&mut self, addr: &KeyAddr, pubkey: String, created_at: String)
        ensures
            final(self)@ == old(self)@.push(new_record(*addr, pubkey@, created_at@)),
    {
        let meta = KeyMeta {
            name: addr.name.clone(),
            env: addr.env.to_string(),
            pubkey,
            created_at,
        };
        self.keys.push(meta);
        assert(final(self)@ =~= old(self)@.push(new_record(*addr, pubkey@, created_at@)));
    }

    /// Appends the record of a key created now.
    pub fn insert(&mut self, addr: &KeyAddr, pubkey: String)
        ensures
            exists|t: Seq<char>|
                is_timestamp_text(t) && final(self)@ == old(self)@.push(
                    #[trigger] new_record(*addr, pubkey@, t),
                ),
    {
        let created_at = now_rfc3339();
        let ghost t = created_at@;
        self.insert_created_at(addr, pubkey, created_at);
        assert(is_timestamp_text(t) && final(self)@ == old(self)@.push(new_record(*addr, pubkey@, t)));
    }

    /// Drops every record stored at `addr`, keeping the others in order.
    pub fn remove(&mut self, addr: &KeyAddr)
        ensures
            final(self)@ == old(self)@.filter(|r: KeyRecord| !record_matches(r, *addr)),
    {
        let ghost orig = self@;
        let ghost pred = |r: KeyRecord| !record_matches(r, *addr);
        let env = addr.env.to_string();
        let mut rest: Vec<KeyMeta> = Vec::new();
        std::mem::swap(&mut rest, &mut self.keys);
        let mut kept: Vec<KeyMeta> = Vec::new();
        let ghost mut n: int = 0;
        assert(records(rest@) =~= orig.skip(0));
        reveal(Seq::filter);
        assert(orig.take(0).filter(pred) =~= Seq::<KeyRecord>::empty());
        while rest.len() > 0
            invariant
                0 <= n <= orig.len(),
                env@ == env_text(addr.env),
                records(rest@) =~= orig.skip(n),
                records(kept@) =~= orig.take(n).filter(pred),
                pred == (|r: KeyRecord| !record_matches(r, *addr)),
            decreases rest@.len(),
        {
            let ghost before = rest@;
            let ghost kept_before = kept@;
            assert(records(before).len() == before.len());
            assert(n < orig.len());
            assert(records(before)[0] == orig.skip(n)[0]);
            let k = rest.remove(0);
            assert(k == before[0]);
            assert(k@ == orig[n]);
            assert(orig.take(n + 1).drop_last() =~= orig.take(n));
            assert(orig.take(n + 1).last() == orig[n]);
            reveal(Seq::filter);
            let drop = k.env == env && k.name == addr.name;
            assert(drop == !pred(orig[n]));
            if !drop {
                kept.push(k);
                assert(records(kept@) =~= records(kept_before).push(orig[n]));
            }
            assert(rest@ =~= before.drop_first());
            assert forall|j: int| 0 <= j < rest@.len() implies #[trigger] records(rest@)[j] == orig.skip(n + 1)[j] by {
                assert(rest@[j] == before[j + 1]);
                assert(records(before)[j + 1] == orig.skip(n)[j + 1]);
            }
            assert(records(rest@) =~= orig.skip(n + 1));
            proof {
                n = n + 1;
            }
        }
        assert(orig.take(n) =~= orig);
        self.keys = kept;
    }

    /// The records of environment `env`, in order.
    pub fn for_env(&self, env: Env) -> (r: Vec<KeyMeta>)
        ensures
            records(r@) == self@.filter(|r: KeyRecord| record_in_env(r, env)),
    {
        let ghost pred = |r: KeyRecord| record_in_env(r, env);
        let env_s = env.to_string();
        let mut out: Vec<KeyMeta> = Vec::new();
        let mut i: usize = 0;
        while i < self.keys.len()
            invariant
                i <= self@.len(),
                env_s@ == env_text(env),
                records(out@) =~= self@.take(i as int).filter(pred),
                pred == (|r: KeyRecord| record_in_env(r, env)),
            decreases self@.len() - i,
        {
            let ghost out_before = out@;
            assert(self@.take(i + 1).drop_last() =~= self@.take(i as int));
            assert(self@.take(i + 1).last() == self.keys@[i as int]@);
            reveal(Seq::filter);
            assert(self@.take(i + 1).filter(pred) == (if pred(self@[i as int]) {
                self@.take(i as int).filter(pred).push(self@[i as int])
            } else {
                self@.take(i as int).filter(pred)
            }));
            if self.keys[i].env == env_s {
                let c = self.keys[i].clone();
                out.push(c);
                assert(records(out@) =~= records(out_before).push(self@[i as int]));
            }
            i += 1;
        }
        assert(self@.take(i as int) =~= self@);
        out
    }
}

} // verus!
