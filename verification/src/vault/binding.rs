//! Project bindings: a `.keymgr.toml` whose `key` field names the key a
//! project uses, and the `.gitignore` line that keeps it out of git.

use vstd::prelude::*;
use crate::constant::PROJECT_TOML_NAME;
use crate::error::AppError;
use crate::text::{
    has_prefix, index_of, lemma_index_of, lemma_index_of_found, lines, lines_of, owned, push_char, strip_cr, texts, trim, trim_text,
};
use crate::vault::env::{addr_of_text, addr_parse_error, addr_text, lemma_addr_text_parses, name_ok, Env, KeyAddr};

verus! {

/// `toml::map::Map`, the table type of the toml crate (`toml::Table` is
/// `Map<String, Value>`).
#[verifier::external_type_specification]
#[verifier::external_body]
#[verifier::reject_recursive_types(K)]
#[verifier::reject_recursive_types(V)]
pub struct ExTomlMap<K, V>(toml::map::Map<K, V>);

/// `toml::Value`, a TOML value of any kind.
#[verifier::external_type_specification]
#[verifier::external_body]
pub struct ExTomlValue(toml::Value);

/// The top-level entries of a TOML table. Each key maps to a flag telling
/// whether its value is a string, and to a text: the string itself, or, for
/// any other value, its TOML form (`Value::to_string`).
pub uninterp spec fn toml_table_entries(t: toml::Table) -> Map<Seq<char>, (bool, Seq<char>)>;

/// Whether `toml::to_string_pretty` succeeds on the table. A table of
/// `Value`s has no `None` and only string keys, so the serializer refuses it
/// only for a datetime it cannot write back; a table read from text, or an
/// empty one, holds none.
pub uninterp spec fn toml_table_renders(t: toml::Table) -> bool;

/// The entries of the table `toml::from_str` reads from `raw`, or `None`
/// when `raw` is not a TOML document.
pub uninterp spec fn toml_document_entries(raw: Seq<char>) -> Option<Map<Seq<char>, (bool, Seq<char>)>>;

/// The string-valued entries among `m`, with their strings.
pub open spec fn string_entries(m: Map<Seq<char>, (bool, Seq<char>)>) -> Map<Seq<char>, Seq<char>> {
    Map::new(|k: Seq<char>| m.contains_key(k) && m[k].0, |k: Seq<char>| m[k].1)
}

/// The string-valued entries of the document `raw`, or `None` when `raw` is
/// not a TOML document.
pub open spec fn toml_document_strings(raw: Seq<char>) -> Option<Map<Seq<char>, Seq<char>>> {
    match toml_document_entries(raw) {
        Some(m) => Some(string_entries(m)),
        None => None,
    }
}

/// The entries of an empty table.
pub open spec fn no_entries() -> Map<Seq<char>, (bool, Seq<char>)> {
    Map::empty()
}

/// `toml::from_str::<toml::Table>`. A table read from text renders again.
#[verifier::external_body]
fn toml_parse(raw: &str) -> (r: Result<toml::Table, toml::de::Error>)
    ensures
        r is Ok <==> toml_document_entries(raw@) is Some,
        r matches Ok(t) ==> Some(toml_table_entries(t)) == toml_document_entries(raw@) && toml_table_renders(t),
{
    toml::from_str(raw)
}

/// `toml::Table::new`: an empty table, which renders.
#[verifier::external_body]
fn toml_table_new() -> (r: toml::Table)
    ensures
        toml_table_entries(r) == no_entries(),
        toml_table_renders(r),
{
    toml::Table::new()
}

/// `Map::insert` of a `Value::String`: the entry `key` now holds the string
/// `value`; every other entry is kept. A string value always renders, so a
/// table that rendered still does (one that did not may now, when the
/// replaced entry was the datetime that stopped it).
#[verifier::external_body]
fn toml_insert_string(t: &mut toml::Table, key: String, value: String)
    ensures
        toml_table_entries(*final(t)) == toml_table_entries(*old(t)).insert(key@, (true, value@)),
        toml_table_renders(*old(t)) ==> toml_table_renders(*final(t)),
{
    t.insert(key, toml::Value::String(value));
}

/// `Map::get`, keeping the entry only when it holds a string.
#[verifier::external_body]
fn toml_get_string(t: &toml::Table, key: &str) -> (r: Option<String>)
    ensures
        r matches Some(v) ==> toml_table_entries(*t).contains_key(key@) && toml_table_entries(*t)[key@] == (true, v@),
        r is None ==> !(toml_table_entries(*t).contains_key(key@) && toml_table_entries(*t)[key@].0),
{
    match t.get(key) {
        Some(toml::Value::String(s)) => Some(s.clone()),
        _ => None,
    }
}

/// `toml::to_string_pretty` of a table: it succeeds exactly on the tables
/// that render, and reading the text back gives a table with the same
/// entries.
#[verifier::external_body]
fn toml_render_pretty(t: &toml::Table) -> (r: Result<String, toml::ser::Error>)
    ensures
        r is Ok <==> toml_table_renders(*t),
        r matches Ok(s) ==> toml_document_entries(s@) == Some(toml_table_entries(*t)),
{
    toml::to_string_pretty(t)
}

/// The field of a binding document that names the key.
pub open spec fn binding_field() -> Seq<char> {
    "key"@
}

/// The entries a binding document starts from: those of the existing
/// document, or none.
pub open spec fn binding_base(existing: Option<Seq<char>>) -> Option<Map<Seq<char>, (bool, Seq<char>)>> {
    match existing {
        None => Some(no_entries()),
        Some(raw) => toml_document_entries(raw),
    }
}

/// Reads the key a binding document names: `None` when it has no string
/// `key` field; an error when it is no TOML or its `key` is no address.
pub fn key_from_binding(raw: &str) -> (res: Result<Option<KeyAddr>, AppError>)
    ensures
        match toml_document_strings(raw@) {
            None => res matches Err(AppError::TomlDe(_)),
            Some(m) => if m.contains_key(binding_field()) {
                &&& (res matches Ok(Some(_))) <==> addr_of_text(m[binding_field()]) is Some
                &&& res matches Ok(Some(a)) ==> addr_of_text(m[binding_field()]) == Some((a.env, a.name@))
                &&& res matches Err(e) ==> addr_parse_error(m[binding_field()], e)
                &&& res !is Ok || res matches Ok(Some(_))
            } else {
                res matches Ok(None)
            },
        },
{
    let table = match toml_parse(raw) {
        Ok(t) => t,
        Err(e) => return Err(AppError::TomlDe(e)),
    };
    match toml_get_string(&table, "key") {
        Some(s) => match KeyAddr::parse(s.as_str()) {
            Ok(a) => Ok(Some(a)),
            Err(e) => Err(e),
        },
        None => Ok(None),
    }
}

/// The binding document for `addr`: the existing document (if any) with its
/// `key` field set to the string `env/name`, every other field kept as it
/// was. It fails only when the existing text is not a TOML document.
pub fn bound_document(existing: Option<&str>, addr: &KeyAddr) -> (res: Result<String, AppError>)
    ensures
        res is Err <==> (existing matches Some(raw) && toml_document_entries(raw@) is None),
        res matches Err(e) ==> e matches AppError::TomlDe(_),
        res matches Ok(s) ==> binding_base(match existing {
            Some(raw) => Some(raw@),
            None => None,
        }) matches Some(m) && toml_document_entries(s@) == Some(
            m.insert(binding_field(), (true, addr_text(addr.env, addr.name@))),
        ),
{
    let mut table = match existing {
        Some(raw) => match toml_parse(raw) {
            Ok(t) => t,
            Err(e) => return Err(AppError::TomlDe(e)),
        },
        None => toml_table_new(),
    };
    toml_insert_string(&mut table, owned("key"), addr.to_string());
    match toml_render_pretty(&table) {
        Ok(s) => Ok(s),
        Err(e) => Err(AppError::TomlSer(e)),
    }
}

/// A binding written for an address with a valid name reads back as that
/// address, whatever other fields the document holds, and every other field,
/// string or not, stays as it was.
pub proof fn lemma_binding_roundtrip(m: Map<Seq<char>, (bool, Seq<char>)>, e: Env, name: Seq<char>)
    requires
        name_ok(name),
    ensures
        string_entries(m.insert(binding_field(), (true, addr_text(e, name)))).contains_key(binding_field()),
        addr_of_text(string_entries(m.insert(binding_field(), (true, addr_text(e, name))))[binding_field()])
            == Some((e, name)),
        forall|k: Seq<char>|
            k != binding_field() ==> #[trigger] m.insert(binding_field(), (true, addr_text(e, name))).contains_key(k)
                == m.contains_key(k) && (m.contains_key(k) ==> m.insert(binding_field(), (true, addr_text(e, name)))[k]
                == m[k]),
{
    lemma_addr_text_parses(e, name);
    let m2 = m.insert(binding_field(), (true, addr_text(e, name)));
    assert(m2.contains_key(binding_field()) && m2[binding_field()].0);
    assert(string_entries(m2).contains_key(binding_field()));
}

/// Some line of `text`, trimmed, is exactly `.keymgr.toml`.
pub open spec fn gitignore_lists_binding(text: Seq<char>) -> bool {
    exists|i: int| 0 <= i < lines_of(text).len() && trim_text(#[trigger] lines_of(text)[i]) == PROJECT_TOML_NAME@
}

/// `text` with the line `.keymgr.toml` appended, after a line break if the
/// text does not end with one.
pub open spec fn gitignore_with_binding(text: Seq<char>) -> Seq<char> {
    let base = if text.len() > 0 && text.last() != '\n' {
        text.push('\n')
    } else {
        text
    };
    base + PROJECT_TOML_NAME@ + "\n"@
}

/// The new `.gitignore` text that lists the binding file, or `None` when the
/// existing text (empty for a missing file) lists it already.
pub fn gitignore_update(existing: &str) -> (r: Option<String>)
    ensures
        gitignore_lists_binding(existing@) ==> r is None,
        !gitignore_lists_binding(existing@) ==> (r matches Some(t) && t@ == gitignore_with_binding(existing@)),
{
    let ls = lines(existing);
    let mut i: usize = 0;
    while i < ls.len()
        invariant
            i <= ls@.len(),
            texts(ls@) == lines_of(existing@),
            forall|j: int| 0 <= j < i ==> trim_text(#[trigger] lines_of(existing@)[j]) != PROJECT_TOML_NAME@,
        decreases ls@.len() - i,
    {
        let t = trim(ls[i].as_str());
        assert(texts(ls@)[i as int] == ls@[i as int]@);
        if crate::text::chars_equal(&crate::text::chars_of(t.as_str()), PROJECT_TOML_NAME) {
            return None;
        }
        i += 1;
    }
    let mut content = owned(existing);
    let v = crate::text::chars_of(existing);
    if v.len() > 0 && v[v.len() - 1] != '\n' {
        push_char(&mut content, '\n');
    }
    content.append(PROJECT_TOML_NAME);
    content.append("\n");
    Some(content)
}

proof fn lemma_lines_append(a: Seq<char>, b: Seq<char>)
    requires
        a.len() == 0 || a.last() == '\n',
    ensures
        lines_of(a + b) == lines_of(a) + lines_of(b),
    decreases a.len(),
{
    if a.len() == 0 {
        assert(a + b =~= b);
        assert(lines_of(a) =~= Seq::<Seq<char>>::empty());
        assert(lines_of(a) + lines_of(b) =~= lines_of(b));
    } else {
        crate::text::lemma_index_of_exists(a, '\n', a.len() - 1);
        lemma_index_of_found(a, '\n');
        let i0 = index_of(a, '\n');
        let i = i0;
        assert forall|j: int| 0 <= j < i implies (a + b)[j] != '\n' by {
            assert((a + b)[j] == a[j]);
        }
        assert((a + b)[i] == a[i]);
        lemma_index_of(a + b, '\n', i);
        assert((a + b).take(i) =~= a.take(i));
        assert((a + b).skip(i + 1) =~= a.skip(i + 1) + b);
        let rest = a.skip(i + 1);
        if rest.len() > 0 {
            assert(rest.last() == a.last());
        }
        lemma_lines_append(rest, b);
        assert(lines_of(a + b) =~= seq![strip_cr(a.take(i))] + (lines_of(rest) + lines_of(b)));
        assert(lines_of(a) =~= seq![strip_cr(a.take(i))] + lines_of(rest));
    }
}

/// Listing the binding file is idempotent: once `gitignore_update` has added
/// the line, a second update finds it and leaves the file alone.
pub proof fn lemma_gitignore_idempotent(text: Seq<char>)
    ensures
        gitignore_lists_binding(gitignore_with_binding(text)),
{
    reveal_strlit(".keymgr.toml");
    reveal_strlit("\n");
    let base = if text.len() > 0 && text.last() != '\n' {
        text.push('\n')
    } else {
        text
    };
    let line = PROJECT_TOML_NAME@ + "\n"@;
    assert(gitignore_with_binding(text) =~= base + line);
    lemma_lines_append(base, line);
    let name = PROJECT_TOML_NAME@;
    assert forall|j: int| 0 <= j < name.len() implies line[j] != '\n' by {
        assert(line[j] == name[j]);
    }
    lemma_index_of(line, '\n', name.len() as int);
    assert(line.take(name.len() as int) =~= name);
    assert(line.skip(name.len() as int + 1) =~= Seq::<char>::empty());
    assert(name.last() == 'l');
    assert(strip_cr(name) == name);
    assert(lines_of(Seq::<char>::empty()) =~= Seq::<Seq<char>>::empty());
    assert(line.len() > 0);
    assert(lines_of(line) == seq![strip_cr(line.take(name.len() as int))] + lines_of(line.skip(name.len() as int + 1)));
    assert(lines_of(line) =~= seq![name]);
    crate::text::lemma_trim_unchanged(name);
    let ls = lines_of(base + line);
    assert(ls[lines_of(base).len() as int] == name);
}

} // verus!
