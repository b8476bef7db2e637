//! Environments and key addresses (`env/name`).

use vstd::prelude::*;
use crate::constant::NAME_MAX_LEN;
use crate::error::AppError;
use crate::text::{chars_equal, chars_of, index_of, lemma_index_of, lemma_index_of_found, owned, string_of};

verus! {

/// The deployment environment a key belongs to.
#[derive(Debug, Clone, Copy, PartialEq, Eq, Hash, Structural)]
pub enum Env {
    Local,
    Dev,
    Prod,
}

/// The text an environment is written as.
pub open spec fn env_text(e: Env) -> Seq<char> {
    match e {
        Env::Local => "local"@,
        Env::Dev => "dev"@,
        Env::Prod => "prod"@,
    }
}

/// The environment written as `s`, if any.
pub open spec fn env_of_text(s: Seq<char>) -> Option<Env> {
    if s == env_text(Env::Local) {
        Some(Env::Local)
    } else if s == env_text(Env::Dev) {
        Some(Env::Dev)
    } else if s == env_text(Env::Prod) {
        Some(Env::Prod)
    } else {
        None
    }
}

/// The message carried by `AppError::InvalidEnv` for the unknown text `s`.
pub open spec fn invalid_env_message(s: Seq<char>) -> Seq<char> {
    s + " (expected one of local, dev, prod)"@
}

/// A character allowed in a key name: a-z, 0-9 or '-'.
pub open spec fn name_char_ok(c: char) -> bool {
    ('a' <= c && c <= 'z') || ('0' <= c && c <= '9') || c == '-'
}

/// A valid key name: 1 to 32 allowed characters.
pub open spec fn name_ok(n: Seq<char>) -> bool {
    &&& 0 < n.len() <= NAME_MAX_LEN
    &&& forall|i: int| 0 <= i < n.len() ==> name_char_ok(#[trigger] n[i])
}

/// `env/name`, the text form of an address.
pub open spec fn addr_text(e: Env, name: Seq<char>) -> Seq<char> {
    env_text(e) + "/"@ + name
}

/// `env_name`, the file stem of an address.
pub open spec fn stem_text(e: Env, name: Seq<char>) -> Seq<char> {
    env_text(e) + "_"@ + name
}

/// The address written as `s`: split at the first '/', a known environment
/// before it and a valid name after it.
pub open spec fn addr_of_text(s: Seq<char>) -> Option<(Env, Seq<char>)> {
    let i = index_of(s, '/');
    if i < 0 {
        None
    } else {
        match env_of_text(s.take(i)) {
            Some(e) => if name_ok(s.skip(i + 1)) {
                Some((e, s.skip(i + 1)))
            } else {
                None
            },
            None => None,
        }
    }
}

/// The error `KeyAddr::parse` reports for the text `s` that is no address.
pub open spec fn addr_parse_error(s: Seq<char>, e: AppError) -> bool {
    let i = index_of(s, '/');
    if i < 0 {
        e matches AppError::Other(m) && m@ == "expected env/name, got '"@ + s + "'"@
    } else if env_of_text(s.take(i)) is None {
        e matches AppError::InvalidEnv(m) && m@ == invalid_env_message(s.take(i))
    } else {
        e matches AppError::InvalidName(m) && m@ == s.skip(i + 1)
    }
}

proof fn lemma_env_text_facts(e: Env)
    ensures
        env_of_text(env_text(e)) == Some(e),
        env_text(e).len() == (match e {
            Env::Local => 5int,
            Env::Dev => 3int,
            Env::Prod => 4int,
        }),
        forall|j: int| 0 <= j < env_text(e).len() ==> 'a' <= #[trigger] env_text(e)[j] && env_text(e)[j] <= 'z',
{
    reveal_strlit("local");
    reveal_strlit("dev");
    reveal_strlit("prod");
    assert("local"@.len() == 5);
    assert("dev"@.len() == 3);
    assert("prod"@.len() == 4);
    assert("local"@ != "dev"@);
    assert("local"@ != "prod"@);
    assert("dev"@ != "prod"@);
}

/// Writing an environment out and reading it back gives the same environment.
pub proof fn lemma_env_text_roundtrip(e: Env)
    ensures
        env_of_text(env_text(e)) == Some(e),
{
    lemma_env_text_facts(e);
}

/// A file stem starts with the lowercase letter that starts its environment.
pub proof fn lemma_stem_starts_with_letter(e: Env, name: Seq<char>)
    ensures
        stem_text(e, name).len() > 0,
        'a' <= stem_text(e, name)[0] && stem_text(e, name)[0] <= 'z',
{
    lemma_env_text_facts(e);
    assert(stem_text(e, name)[0] == env_text(e)[0]);
}

/// Distinct environments are written differently.
pub proof fn lemma_env_text_injective(a: Env, b: Env)
    ensures
        env_text(a) == env_text(b) <==> a == b,
{
    lemma_env_text_facts(a);
    lemma_env_text_facts(b);
}

/// Reading back the text form `env/name` of an address whose name is valid
/// gives that very address.
pub proof fn lemma_addr_text_parses(e: Env, name: Seq<char>)
    requires
        name_ok(name),
    ensures
        addr_of_text(addr_text(e, name)) == Some((e, name)),
{
    lemma_env_text_facts(e);
    reveal_strlit("/");
    let s = addr_text(e, name);
    let k = env_text(e).len() as int;
    assert(s[k] == '/');
    assert forall|j: int| 0 <= j < k implies s[j] != '/' by {
        assert(s[j] == env_text(e)[j]);
    }
    lemma_index_of(s, '/', k);
    assert(s.take(k) =~= env_text(e));
    assert(s.skip(k + 1) =~= name);
}

/// Every text that reads as an address is exactly the text form of the
/// address read, and that address has a valid name.
pub proof fn lemma_parsed_text_is_addr_text(s: Seq<char>)
    requires
        addr_of_text(s) is Some,
    ensures
        match addr_of_text(s) {
            Some((e, n)) => addr_text(e, n) == s && name_ok(n),
            None => false,
        },
{
    reveal_strlit("/");
    let i = index_of(s, '/');
    lemma_index_of_found(s, '/');
    let e = env_of_text(s.take(i)).unwrap();
    assert(env_text(e) == s.take(i));
    assert(s =~= s.take(i) + "/"@ + s.skip(i + 1));
}

/// Two addresses with valid names and the same file stem are the same address:
/// vault entries of distinct keys never share a file.
pub proof fn lemma_stem_injective(e1: Env, n1: Seq<char>, e2: Env, n2: Seq<char>)
    requires
        name_ok(n1),
        name_ok(n2),
        stem_text(e1, n1) == stem_text(e2, n2),
    ensures
        e1 == e2,
        n1 == n2,
{
    lemma_env_text_facts(e1);
    lemma_env_text_facts(e2);
    reveal_strlit("_");
    let s = stem_text(e1, n1);
    let k1 = env_text(e1).len() as int;
    let k2 = env_text(e2).len() as int;
    assert(s[k1] == '_');
    assert(s[k2] == '_');
    if k1 < k2 {
        assert(s[k1] == env_text(e2)[k1]);
    } else if k2 < k1 {
        assert(s[k2] == env_text(e1)[k2]);
    }
    assert(k1 == k2);
    assert(e1 == e2);
    assert(n1 =~= s.skip(k1 + 1));
    assert(n2 =~= s.skip(k2 + 1));
}

impl Env {
    pub fn is_prod(self) -> (r: bool)
        ensures
            r == (self == Env::Prod),
    {
        match self {
            Env::Prod => true,
            _ => false,
        }
    }

    /// The text form (`local`, `dev` or `prod`).
    pub fn as_str(&self) -> (r: &'static str)
        ensures
            r@ == env_text(*self),
    {
        match self {
            Env::Local => "local",
            Env::Dev => "dev",
            Env::Prod => "prod",
        }
    }

    /// The text form as an owned string.
    pub fn to_string(&self) -> (r: String)
        ensures
            r@ == env_text(*self),
    {
        owned(self.as_str())
    }

    /// Reads an environment from its text form.
    pub fn from_name(s: &str) -> (res: Result<Env, AppError>)
        ensures
            match env_of_text(s@) {
                Some(e) => res == Ok::<Env, AppError>(e),
                None => res matches Err(AppError::InvalidEnv(m)) && m@ == invalid_env_message(s@),
            },
    {
        let v = chars_of(s);
        if chars_equal(&v, "local") {
            Ok(Env::Local)
        } else if chars_equal(&v, "dev") {
            Ok(Env::Dev)
        } else if chars_equal(&v, "prod") {
            Ok(Env::Prod)
        } else {
            let mut m = owned(s);
            m.append(" (expected one of local, dev, prod)");
            Err(AppError::InvalidEnv(m))
        }
    }
}

impl std::str::FromStr for Env {
    type Err = AppError;

    fn from_str(s: &str) -> (res: Result<Env, AppError>)
        ensures
            match env_of_text(s@) {
                Some(e) => res == Ok::<Env, AppError>(e),
                None => res matches Err(AppError::InvalidEnv(m)) && m@ == invalid_env_message(s@),
            },
    {
        Env::from_name(s)
    }
}

/// A key's address: its environment and its name.
#[derive(Debug, Clone, PartialEq, Eq, Hash)]
pub struct KeyAddr {
    pub env: Env,
    pub name: String,
}

/// Checks a key name: 1 to 32 characters, each a-z, 0-9 or '-'.
pub fn validate_name(name: &str) -> (res: Result<(), AppError>)
    ensures
        res is Ok <==> name_ok(name@),
        res matches Err(e) ==> e matches AppError::InvalidName(m) && m@ == name@,
{
    let v = chars_of(name);
    let mut ok = v.len() > 0 && v.len() <= NAME_MAX_LEN;
    let mut i: usize = 0;
    while i < v.len()
        invariant
            v@ == name@,
            i <= v@.len(),
            ok == (0 < v@.len() <= NAME_MAX_LEN && forall|j: int| 0 <= j < i ==> name_char_ok(#[trigger] v@[j])),
        decreases v@.len() - i,
    {
        let c = v[i];
        let good = ('a' <= c && c <= 'z') || ('0' <= c && c <= '9') || c == '-';
        proof {
            if ok && good {
                assert forall|j: int| 0 <= j < i + 1 implies name_char_ok(#[trigger] v@[j]) by {
                    if j == i {
                        assert(v@[j] == c);
                    }
                }
            }
            if !good {
                assert(!name_char_ok(v@[i as int]));
            }
        }
        ok = ok && good;
        i += 1;
    }
    if ok {
        Ok(())
    } else {
        Err(AppError::InvalidName(owned(name)))
    }
}

impl KeyAddr {
    /// Reads `env/name`.
    pub fn parse(addr: &str) -> (res: Result<KeyAddr, AppError>)
        ensures
            res is Ok <==> addr_of_text(addr@) is Some,
            res matches Ok(a) ==> addr_of_text(addr@) == Some((a.env, a.name@)),
            res matches Err(e) ==> addr_parse_error(addr@, e),
    {
        let v = chars_of(addr);
        let mut i: usize = 0;
        while i < v.len() && v[i] != '/'
            invariant
                v@ == addr@,
                i <= v@.len(),
                forall|j: int| 0 <= j < i ==> v@[j] != '/',
            decreases v@.len() - i,
        {
            i += 1;
        }
        proof {
            lemma_index_of(v@, '/', i as int);
        }
        if i == v.len() {
            let mut m = owned("expected env/name, got '");
            m.append(addr);
            m.append("'");
            return Err(AppError::Other(m));
        }
        let env_s = string_of(&v, 0, i);
        assert(env_s@ == addr@.take(i as int));
        let env = match Env::from_name(env_s.as_str()) {
            Ok(e) => e,
            Err(e) => return Err(e),
        };
        let name = string_of(&v, i + 1, v.len());
        assert(name@ == addr@.skip(i + 1));
        match validate_name(name.as_str()) {
            Ok(()) => {},
            Err(e) => return Err(e),
        }
        Ok(KeyAddr { env, name })
    }

    /// `env_name`, the file stem of this address.
    pub fn stem(&self) -> (r: String)
        ensures
            r@ == stem_text(self.env, self.name@),
    {
        let mut r = self.env.to_string();
        r.append("_");
        r.append(self.name.as_str());
        r
    }

    /// `env/name`, the text form of this address.
    pub fn to_string(&self) -> (r: String)
        ensures
            r@ == addr_text(self.env, self.name@),
    {
        let mut r = self.env.to_string();
        r.append("/");
        r.append(self.name.as_str());
        r
    }
}

} // verus!
