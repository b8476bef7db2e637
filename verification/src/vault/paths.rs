//! The on-disk layout of the vault under `~/.sol-keymgr`.

use vstd::prelude::*;
use crate::constant::{
    ACTIVE_DIR_NAME, APP_DIR_NAME, BACKUP_DIR_NAME, CONFIG_FILE_NAME, INDEX_FILE_NAME,
    SOLANA_ID_BACKUP_NAME, VAULT_DIR_NAME, VERIFIER_FILE_NAME,
};
use crate::error::AppError;
use crate::text::{chars_equal, chars_of, index_of, lemma_index_of, lemma_index_of_found, owned, string_of, texts};
use crate::vault::env::{lemma_stem_injective, lemma_stem_starts_with_letter, name_ok, stem_text, Env, KeyAddr};

verus! {

/// `directories::BaseDirs`, the user's standard directories.
#[verifier::external_type_specification]
#[verifier::external_body]
pub struct ExBaseDirs(directories::BaseDirs);

/// `BaseDirs::new`: the user's directories, or `None` when no home directory
/// can be found. The outcome depends on the environment; nothing is promised.
#[verifier::external_body]
fn base_dirs() -> Option<directories::BaseDirs> {
    directories::BaseDirs::new()
}

/// `BaseDirs::home_dir`, as text (a non-UTF-8 path is converted lossily).
/// Nothing is stated of the text: the value is opaque here.
#[verifier::external_body]
fn base_dirs_home(dirs: &directories::BaseDirs) -> String {
    dirs.home_dir().to_string_lossy().into_owned()
}

/// `base` joined with `name` as `PathBuf::join` does on Unix: an absolute
/// `name` replaces `base`; otherwise a '/' is put between them unless `base`
/// is empty or already ends with one.
pub open spec fn join_path(base: Seq<char>, name: Seq<char>) -> Seq<char> {
    if name.len() > 0 && name[0] == '/' {
        name
    } else if base.len() == 0 || base.last() == '/' {
        base + name
    } else {
        base + "/"@ + name
    }
}

/// `base.join(name)` on path texts.
pub fn join(base: &str, name: &str) -> (r: String)
    ensures
        r@ == join_path(base@, name@),
{
    let n = chars_of(name);
    if n.len() > 0 && n[0] == '/' {
        return owned(name);
    }
    let b = chars_of(base);
    let mut r = owned(base);
    if !(b.len() == 0 || b[b.len() - 1] == '/') {
        r.append("/");
    }
    r.append(name);
    r
}

/// Keys with distinct addresses (and valid names) have distinct files in any
/// directory of the vault, for any extension: `vault_entry` and
/// `active_entry` never give two keys the same path.
pub proof fn lemma_entry_paths_distinct(
    dir: Seq<char>,
    ext: Seq<char>,
    e1: Env,
    n1: Seq<char>,
    e2: Env,
    n2: Seq<char>,
)
    requires
        name_ok(n1),
        name_ok(n2),
        join_path(dir, stem_text(e1, n1) + ext) == join_path(dir, stem_text(e2, n2) + ext),
    ensures
        e1 == e2,
        n1 == n2,
{
    lemma_stem_starts_with_letter(e1, n1);
    lemma_stem_starts_with_letter(e2, n2);
    let f1 = stem_text(e1, n1) + ext;
    let f2 = stem_text(e2, n2) + ext;
    assert(f1[0] == stem_text(e1, n1)[0]);
    assert(f2[0] == stem_text(e2, n2)[0]);
    let base = if dir.len() == 0 || dir.last() == '/' { dir } else { dir + "/"@ };
    assert(join_path(dir, f1) == base + f1);
    assert(join_path(dir, f2) == base + f2);
    assert(f1 =~= (base + f1).skip(base.len() as int));
    assert(f2 =~= (base + f2).skip(base.len() as int));
    assert(stem_text(e1, n1) =~= f1.take(f1.len() - ext.len()));
    assert(stem_text(e2, n2) =~= f2.take(f2.len() - ext.len()));
    lemma_stem_injective(e1, n1, e2, n2);
}

/// The texts between the '/' separators of `s`, empty ones included.
pub open spec fn segments(s: Seq<char>) -> Seq<Seq<char>>
    decreases s.len(),
{
    let i = index_of(s, '/');
    if i < 0 {
        seq![s]
    } else {
        proof {
            lemma_index_of_found(s, '/');
        }
        seq![s.take(i)] + segments(s.skip(i + 1))
    }
}

/// A segment that names a component: not empty and not `.`.
pub open spec fn names_component(part: Seq<char>) -> bool {
    part.len() > 0 && part != "."@
}

/// The components of a Unix path as `Path::components` gives them: the root
/// `/` of an absolute path, a leading `.` of a relative one, then every
/// segment that is neither empty nor `.`.
pub open spec fn path_components(s: Seq<char>) -> Seq<Seq<char>> {
    if s.len() > 0 && s[0] == '/' {
        seq!["/"@] + segments(s.skip(1)).filter(|p: Seq<char>| names_component(p))
    } else if segments(s)[0] == "."@ {
        seq!["."@] + segments(s).skip(1).filter(|p: Seq<char>| names_component(p))
    } else {
        segments(s).filter(|p: Seq<char>| names_component(p))
    }
}

/// `Path::starts_with`: the components of `base` begin those of `path`.
pub open spec fn path_starts_with(path: Seq<char>, base: Seq<char>) -> bool {
    let pc = path_components(path);
    let bc = path_components(base);
    bc.len() <= pc.len() && pc.take(bc.len() as int) == bc
}

/// The '/'-separated segments of `v[from..]`.
fn segments_from(v: &Vec<char>, from: usize) -> (r: Vec<String>)
    requires
        from <= v@.len(),
    ensures
        texts(r@) == segments(v@.skip(from as int)),
{
    let mut out: Vec<String> = Vec::new();
    let mut pos = from;
    let ghost whole = v@.skip(from as int);
    assert(texts(out@) + segments(v@.skip(pos as int)) =~= segments(whole));
    loop
        invariant
            from <= pos <= v@.len(),
            whole == v@.skip(from as int),
            texts(out@) + segments(v@.skip(pos as int)) == segments(whole),
        decreases v@.len() - pos,
    {
        let ghost rest = v@.skip(pos as int);
        let mut j = pos;
        while j < v.len() && v[j] != '/'
            invariant
                pos <= j <= v@.len(),
                forall|k: int| pos <= k < j ==> v@[k] != '/',
            decreases v@.len() - j,
        {
            j += 1;
        }
        proof {
            assert forall|k: int| 0 <= k < j - pos implies rest[k] != '/' by {
                assert(rest[k] == v@[k + pos]);
            }
            if j < v.len() {
                assert(rest[j - pos] == v@[j as int]);
            }
            lemma_index_of(rest, '/', j - pos);
        }
        let part = string_of(v, pos, j);
        let ghost before = out@;
        out.push(part);
        assert(texts(out@) =~= texts(before).push(part@));
        if j == v.len() {
            assert(part@ =~= rest);
            assert(segments(rest) =~= seq![part@]);
            assert(texts(out@) =~= texts(before) + segments(rest));
            return out;
        }
        assert(rest.take(j - pos) =~= part@);
        assert(rest.skip(j - pos + 1) =~= v@.skip(j + 1));
        assert(segments(rest) =~= seq![part@] + segments(v@.skip(j + 1)));
        assert(texts(out@) + segments(v@.skip(j + 1)) =~= texts(before) + segments(rest));
        pos = j + 1;
    }
}

/// Keeps the segments that name components.
fn component_parts(parts: &Vec<String>, from: usize, out: &mut Vec<String>)
    requires
        from <= parts@.len(),
    ensures
        texts(final(out)@) == texts(old(out)@) + texts(parts@).skip(from as int).filter(
            |p: Seq<char>| names_component(p),
        ),
{
    let ghost pred = |p: Seq<char>| names_component(p);
    let ghost start = old(out)@;
    let ghost src = texts(parts@).skip(from as int);
    let mut i = from;
    reveal(Seq::filter);
    assert(src.take(0).filter(pred) =~= Seq::<Seq<char>>::empty());
    assert(texts(out@) =~= texts(start) + src.take(0).filter(pred));
    while i < parts.len()
        invariant
            from <= i <= parts@.len(),
            src == texts(parts@).skip(from as int),
            pred == (|p: Seq<char>| names_component(p)),
            texts(out@) == texts(start) + src.take(i - from).filter(pred),
        decreases parts@.len() - i,
    {
        reveal(Seq::filter);
        let ghost before = out@;
        assert(src.take(i - from + 1).drop_last() =~= src.take(i - from));
        assert(src.take(i - from + 1).last() == parts@[i as int]@);
        let v = chars_of(parts[i].as_str());
        let keep = v.len() > 0 && !chars_equal(&v, ".");
        if keep {
            out.push(parts[i].clone());
            assert(texts(out@) =~= texts(before).push(parts@[i as int]@));
        }
        assert(keep == pred(parts@[i as int]@));
        assert(src.take(i - from + 1).filter(pred) == (if pred(parts@[i as int]@) {
            src.take(i - from).filter(pred).push(parts@[i as int]@)
        } else {
            src.take(i - from).filter(pred)
        }));
        assert(texts(out@) =~= texts(start) + src.take(i - from + 1).filter(pred));
        i += 1;
    }
    assert(src.take(parts@.len() - from) =~= src);
}

/// The components of the path text `s`, as `path_components`.
fn components(s: &str) -> (r: Vec<String>)
    ensures
        texts(r@) == path_components(s@),
{
    let v = chars_of(s);
    let mut out: Vec<String> = Vec::new();
    if v.len() > 0 && v[0] == '/' {
        out.push(owned("/"));
        let parts = segments_from(&v, 1);
        component_parts(&parts, 0, &mut out);
        assert(texts(parts@).skip(0) =~= texts(parts@));
        return out;
    }
    let parts = segments_from(&v, 0);
    assert(v@.skip(0) =~= v@);
    proof {
        lemma_segments_nonempty(v@);
    }
    let first = chars_of(parts[0].as_str());
    if chars_equal(&first, ".") {
        out.push(owned("."));
        component_parts(&parts, 1, &mut out);
        assert(texts(out@) =~= seq!["."@] + segments(v@).skip(1).filter(|p: Seq<char>| names_component(p)));
    } else {
        component_parts(&parts, 0, &mut out);
        assert(texts(parts@).skip(0) =~= texts(parts@));
    }
    out
}

proof fn lemma_segments_nonempty(s: Seq<char>)
    ensures
        segments(s).len() > 0,
{
}

/// `Path::new(path).starts_with(base)`.
pub fn starts_with_path(path: &str, base: &str) -> (r: bool)
    ensures
        r == path_starts_with(path@, base@),
{
    let pc = components(path);
    let bc = components(base);
    if bc.len() > pc.len() {
        return false;
    }
    let mut i: usize = 0;
    while i < bc.len()
        invariant
            bc@.len() <= pc@.len(),
            texts(pc@) == path_components(path@),
            texts(bc@) == path_components(base@),
            i <= bc@.len(),
            forall|j: int| 0 <= j < i ==> texts(pc@)[j] == texts(bc@)[j],
        decreases bc@.len() - i,
    {
        assert(texts(pc@)[i as int] == pc@[i as int]@);
        assert(texts(bc@)[i as int] == bc@[i as int]@);
        if pc[i] != bc[i] {
            assert(texts(pc@).take(bc@.len() as int)[i as int] != texts(bc@)[i as int]);
            return false;
        }
        i += 1;
    }
    assert(texts(pc@).take(bc@.len() as int) =~= texts(bc@));
    true
}

/// `PathBuf`'s `==`: the same components.
pub fn same_path(a: &str, b: &str) -> (r: bool)
    ensures
        r == (path_components(a@) == path_components(b@)),
{
    let ac = components(a);
    let bc = components(b);
    assert(texts(ac@).len() == ac@.len() && texts(bc@).len() == bc@.len());
    if ac.len() != bc.len() {
        return false;
    }
    let mut i: usize = 0;
    while i < ac.len()
        invariant
            ac@.len() == bc@.len(),
            texts(ac@) == path_components(a@),
            texts(bc@) == path_components(b@),
            i <= ac@.len(),
            forall|j: int| 0 <= j < i ==> texts(ac@)[j] == texts(bc@)[j],
        decreases ac@.len() - i,
    {
        assert(texts(ac@)[i as int] == ac@[i as int]@);
        assert(texts(bc@)[i as int] == bc@[i as int]@);
        if ac[i] != bc[i] {
            return false;
        }
        i += 1;
    }
    assert(texts(ac@) =~= texts(bc@));
    true
}

/// The layout of a vault rooted at `root` (`~/.sol-keymgr`).
pub struct Paths {
    root: String,
}

/// The path of the solana CLI's default keypair under `home`.
pub open spec fn solana_id_text(home: Seq<char>) -> Seq<char> {
    join_path(home, ".config/solana/id.json"@)
}

impl Paths {
    /// The vault root.
    pub closed spec fn root_text(&self) -> Seq<char> {
        self.root@
    }

    /// The layout for the home directory `home`.
    pub fn for_home(home: &str) -> (p: Paths)
        ensures
            p.root_text() == join_path(home@, APP_DIR_NAME@),
    {
        Paths { root: join(home, APP_DIR_NAME) }
    }

    /// The layout for the current user's home directory.
    pub fn resolve() -> (res: Result<Paths, AppError>)
        ensures
            res matches Ok(p) ==> exists|home: Seq<char>| p.root_text() == join_path(home, APP_DIR_NAME@),
            res matches Err(e) ==> e matches AppError::NoHomeDir,
    {
        match base_dirs() {
            Some(dirs) => {
                let home = base_dirs_home(&dirs);
                let p = Paths::for_home(home.as_str());
                assert(p.root_text() == join_path(home@, APP_DIR_NAME@));
                Ok(p)
            },
            None => Err(AppError::NoHomeDir),
        }
    }

    /// The solana CLI's default keypair file, `~/.config/solana/id.json`.
    pub fn solana_id(&self) -> (res: Result<String, AppError>)
        ensures
            res matches Ok(p) ==> exists|home: Seq<char>| p@ == solana_id_text(home),
            res matches Err(e) ==> e matches AppError::NoHomeDir,
    {
        match base_dirs() {
            Some(dirs) => {
                let home = base_dirs_home(&dirs);
                let p = join(home.as_str(), ".config/solana/id.json");
                assert(p@ == solana_id_text(home@));
                Ok(p)
            },
            None => Err(AppError::NoHomeDir),
        }
    }

    pub fn root(&self) -> (r: &String)
        ensures
            r@ == self.root_text(),
    {
        &self.root
    }

    pub fn vault_dir(&self) -> (r: String)
        ensures
            r@ == join_path(self.root_text(), VAULT_DIR_NAME@),
    {
        join(self.root.as_str(), VAULT_DIR_NAME)
    }

    pub fn active_dir(&self) -> (r: String)
        ensures
            r@ == join_path(self.root_text(), ACTIVE_DIR_NAME@),
    {
        join(self.root.as_str(), ACTIVE_DIR_NAME)
    }

    pub fn backup_dir(&self) -> (r: String)
        ensures
            r@ == join_path(self.root_text(), BACKUP_DIR_NAME@),
    {
        join(self.root.as_str(), BACKUP_DIR_NAME)
    }

    pub fn index_file(&self) -> (r: String)
        ensures
            r@ == join_path(self.root_text(), INDEX_FILE_NAME@),
    {
        join(self.root.as_str(), INDEX_FILE_NAME)
    }

    pub fn verifier_file(&self) -> (r: String)
        ensures
            r@ == join_path(self.root_text(), VERIFIER_FILE_NAME@),
    {
        join(self.root.as_str(), VERIFIER_FILE_NAME)
    }

    pub fn config_file(&self) -> (r: String)
        ensures
            r@ == join_path(self.root_text(), CONFIG_FILE_NAME@),
    {
        join(self.root.as_str(), CONFIG_FILE_NAME)
    }

    pub fn id_backup_file(&self) -> (r: String)
        ensures
            r@ == join_path(join_path(self.root_text(), BACKUP_DIR_NAME@), SOLANA_ID_BACKUP_NAME@),
    {
        join(self.backup_dir().as_str(), SOLANA_ID_BACKUP_NAME)
    }

    /// The sealed vault entry of `addr`: `vault/{env}_{name}.enc`.
    pub fn vault_entry(&self, addr: &KeyAddr) -> (r: String)
        ensures
            r@ == join_path(
                join_path(self.root_text(), VAULT_DIR_NAME@),
                stem_text(addr.env, addr.name@) + ".enc"@,
            ),
    {
        let mut file = addr.stem();
        file.append(".enc");
        join(self.vault_dir().as_str(), file.as_str())
    }

    /// The decrypted copy of `addr` in the active set: `active/{env}_{name}.json`.
    pub fn active_entry(&self, addr: &KeyAddr) -> (r: String)
        ensures
            r@ == join_path(
                join_path(self.root_text(), ACTIVE_DIR_NAME@),
                stem_text(addr.env, addr.name@) + ".json"@,
            ),
    {
        let mut file = addr.stem();
        file.append(".json");
        join(self.active_dir().as_str(), file.as_str())
    }
}

} // verus!
