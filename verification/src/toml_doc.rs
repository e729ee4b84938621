//! Arrays of tables in TOML documents, written with `toml_edit`.

use vstd::prelude::*;

verus! {

/// A value in a TOML table.
pub enum TomlValue {
    Text(String),
    Integer(i64),
}

/// What a table holds under a key.
pub enum TomlTree {
    Text(Seq<char>),
    Integer(int),
    Tables(Seq<Seq<(Seq<char>, TomlTree)>>),
    /// Anything else, by the text that it is printed as.
    Other(Seq<char>),
}

/// A document: what it holds under the keys of its root, and its form, which
/// is all else about it: spelling, comments, spacing and the places of tables.
pub struct Document {
    pub entries: Seq<(Seq<char>, TomlTree)>,
    pub form: Seq<char>,
}

impl TomlValue {
    /// What the value is.
    pub open spec fn tree(self) -> TomlTree {
        match self {
            TomlValue::Text(s) => TomlTree::Text(s@),
            TomlValue::Integer(n) => TomlTree::Integer(n as int),
        }
    }
}

/// The position of a key in a table, or the number of entries where the table
/// does not have it.
pub open spec fn key_at(fields: Seq<(Seq<char>, TomlTree)>, key: Seq<char>) -> int
    decreases fields.len(),
{
    if fields.len() == 0 || fields[0].0 == key {
        0
    } else {
        1 + key_at(fields.drop_first(), key)
    }
}

/// A table with a key set: in its old place, or at the end where it is new.
pub open spec fn with_key(
    fields: Seq<(Seq<char>, TomlTree)>,
    key: Seq<char>,
    value: TomlTree,
) -> Seq<(Seq<char>, TomlTree)> {
    let k = key_at(fields, key);
    if 0 <= k < fields.len() {
        fields.update(k, (key, value))
    } else {
        fields.push((key, value))
    }
}

/// A table with a key set where there is a value for it.
pub open spec fn with_optional_key(
    fields: Seq<(Seq<char>, TomlTree)>,
    key: Seq<char>,
    value: Option<TomlTree>,
) -> Seq<(Seq<char>, TomlTree)> {
    match value {
        Some(v) => with_key(fields, key, v),
        None => fields,
    }
}

/// `toml_edit::Table`.
#[verifier::external_type_specification]
#[verifier::external_body]
pub struct ExTable(toml_edit::Table);

/// What a `toml_edit::Table` holds, in its order: strings, integers and arrays
/// of tables as such, anything else by the text that it is printed as.
pub uninterp spec fn fields_of(table: toml_edit::Table) -> Seq<(Seq<char>, TomlTree)>;

/// `toml_edit::DocumentMut`.
#[verifier::external_type_specification]
#[verifier::external_body]
pub struct ExDocument(toml_edit::DocumentMut);

/// What a `toml_edit::DocumentMut` is: the entries of its root table, in their
/// order, and its form, for instance as `Debug` writes the document out.
pub uninterp spec fn document_of(doc: toml_edit::DocumentMut) -> Document;

/// The document that `toml_edit` reads in a text, or what is wrong with the
/// text.
pub uninterp spec fn document_in(text: Seq<char>) -> Result<Document, Seq<char>>;

/// The form of a document after `toml_edit` has set a key of its root to an
/// array of tables.
pub uninterp spec fn form_with(
    doc: Document,
    key: Seq<char>,
    tables: Seq<Seq<(Seq<char>, TomlTree)>>,
) -> Seq<char>;

/// The text that `toml_edit` prints for a document.
pub uninterp spec fn printed(doc: Document) -> Seq<char>;

/// A document with a key of its root set to an array of tables.
pub open spec fn with_tables(
    doc: Document,
    key: Seq<char>,
    tables: Seq<Seq<(Seq<char>, TomlTree)>>,
) -> Document {
    Document {
        entries: with_key(doc.entries, key, TomlTree::Tables(tables)),
        form: form_with(doc, key, tables),
    }
}

/// What a table holds under a key, where it holds anything.
pub open spec fn value_under(fields: Seq<(Seq<char>, TomlTree)>, key: Seq<char>) -> Option<
    TomlTree,
> {
    let k = key_at(fields, key);
    if 0 <= k < fields.len() {
        Some(fields[k].1)
    } else {
        None
    }
}

proof fn lemma_key_at(fields: Seq<(Seq<char>, TomlTree)>, key: Seq<char>)
    ensures
        0 <= key_at(fields, key) <= fields.len(),
        key_at(fields, key) < fields.len() ==> fields[key_at(fields, key)].0 == key,
        forall|i: int| 0 <= i < key_at(fields, key) ==> (#[trigger] fields[i]).0 != key,
    decreases fields.len(),
{
    if fields.len() > 0 && fields[0].0 != key {
        let rest = fields.drop_first();
        lemma_key_at(rest, key);
        assert forall|i: int| 0 <= i < key_at(fields, key) implies (#[trigger] fields[i]).0
            != key by {
            if i > 0 {
                assert(rest[i - 1] == fields[i]);
            }
        }
    }
}

proof fn lemma_key_at_is(fields: Seq<(Seq<char>, TomlTree)>, key: Seq<char>, k: int)
    requires
        0 <= k <= fields.len(),
        k < fields.len() ==> fields[k].0 == key,
        forall|i: int| 0 <= i < k ==> (#[trigger] fields[i]).0 != key,
    ensures
        key_at(fields, key) == k,
{
    lemma_key_at(fields, key);
    let found = key_at(fields, key);
    if found < k {
        assert(fields[found].0 != key);
    } else if k < found {
        assert(fields[k].0 != key);
    }
}

/// Setting a key of a document's root to an array of tables leaves what it
/// holds under all other keys as it was; under the key it holds the tables.
pub proof fn law_other_keys_stay(
    doc: Document,
    key: Seq<char>,
    tables: Seq<Seq<(Seq<char>, TomlTree)>>,
    other: Seq<char>,
)
    ensures
        other != key ==> value_under(with_tables(doc, key, tables).entries, other) == value_under(
            doc.entries,
            other,
        ),
        value_under(with_tables(doc, key, tables).entries, key) == Some(TomlTree::Tables(tables)),
{
    let fields = doc.entries;
    let new = with_tables(doc, key, tables).entries;
    lemma_key_at(fields, key);
    lemma_key_at(fields, other);
    let k = key_at(fields, key);
    assert forall|i: int| 0 <= i < k implies (#[trigger] new[i]).0 != key by {
        assert(new[i] == fields[i]);
    }
    lemma_key_at_is(new, key, k);
    if other != key {
        let o = key_at(fields, other);
        assert forall|i: int| 0 <= i < o implies (#[trigger] new[i]).0 != other by {
            assert(fields[i].0 != other);
        }
        if o < fields.len() {
            lemma_key_at_is(new, other, o);
        } else {
            assert forall|i: int| 0 <= i < new.len() implies (#[trigger] new[i]).0 != other by {
                if i < fields.len() {
                    assert(fields[i].0 != other);
                }
            }
            lemma_key_at_is(new, other, new.len() as int);
        }
    }
}

/// Whether a `toml_edit::Table` is nothing but what it holds: neither it nor
/// any table in it has comments, spacing or a place in a document of its own.
pub uninterp spec fn bare(table: toml_edit::Table) -> bool;

/// Whether all tables of a list are nothing but what they hold.
pub open spec fn all_bare(list: Seq<toml_edit::Table>) -> bool {
    forall|i: int| 0 <= i < list.len() ==> bare(#[trigger] list[i])
}

/// What a list of tables holds.
pub open spec fn tables_of(list: Seq<toml_edit::Table>) -> Seq<Seq<(Seq<char>, TomlTree)>> {
    list.map_values(|t: toml_edit::Table| fields_of(t))
}

/// `toml_edit::Table::new`: a table that holds nothing.
#[verifier::external_body]
pub(crate) fn new_table() -> (r: toml_edit::Table)
    ensures
        fields_of(r) == Seq::<(Seq<char>, TomlTree)>::empty(),
        bare(r),
{
    toml_edit::Table::new()
}

/// Assigning to `toml_edit::Table`'s index, with a value that
/// `toml_edit::value` makes: the key keeps its place, or comes last where it is
/// new.
#[verifier::external_body]
pub(crate) fn set_value(table: &mut toml_edit::Table, key: &str, value: &TomlValue)
    ensures
        fields_of(*final(table)) == with_key(fields_of(*old(table)), key@, value.tree()),
        bare(*old(table)) ==> bare(*final(table)),
{
    table[key] = match value {
        TomlValue::Text(s) => toml_edit::value(s),
        TomlValue::Integer(n) => toml_edit::value(*n),
    };
}

/// `toml_edit::Table::insert` of an array of tables: the key keeps its place,
/// or comes last where it is new.
#[verifier::external_body]
pub(crate) fn set_tables(table: &mut toml_edit::Table, key: &str, tables: Vec<toml_edit::Table>)
    ensures
        fields_of(*final(table)) == with_key(
            fields_of(*old(table)),
            key@,
            TomlTree::Tables(tables_of(tables@)),
        ),
        bare(*old(table)) && all_bare(tables@) ==> bare(*final(table)),
{
    table.insert(key, toml_edit::Item::ArrayOfTables(tables.into_iter().collect()));
}

/// `toml_edit::DocumentMut`'s `FromStr`: what it returns is a function of the
/// text alone. Of the error its text is kept.
#[verifier::external_body]
fn read_document(text: &str) -> (r: Result<toml_edit::DocumentMut, String>)
    ensures
        match r {
            Ok(doc) => document_in(text@) == Ok::<Document, Seq<char>>(document_of(doc)),
            Err(e) => document_in(text@) == Err::<Document, Seq<char>>(e@),
        },
{
    text.parse::<toml_edit::DocumentMut>().map_err(|e| e.to_string())
}

/// `toml_edit::Table::insert` of an array of tables into the root of a
/// document: the key keeps its place, or comes last where it is new, and the
/// other entries stay. The tables are nothing but what they hold, so that is
/// all that the document's form depends on besides the document and the key.
#[verifier::external_body]
fn insert_tables(doc: &mut toml_edit::DocumentMut, key: &str, tables: Vec<toml_edit::Table>)
    requires
        all_bare(tables@),
    ensures
        document_of(*final(doc)).entries == with_key(
            document_of(*old(doc)).entries,
            key@,
            TomlTree::Tables(tables_of(tables@)),
        ),
        document_of(*final(doc)).form == form_with(
            document_of(*old(doc)),
            key@,
            tables_of(tables@),
        ),
{
    let array = toml_edit::Item::ArrayOfTables(tables.into_iter().collect());
    doc.as_table_mut().insert(key, array);
}

/// `toml_edit::DocumentMut`'s `Display`: a function of the document.
#[verifier::external_body]
fn print_document(doc: &toml_edit::DocumentMut) -> (r: String)
    ensures
        r@ == printed(document_of(*doc)),
{
    doc.to_string()
}

/// The text of a document with a key of its root set to an array of tables, or
/// what is wrong with the text.
pub(crate) fn write_tables(contents: &str, key: &str, tables: Vec<toml_edit::Table>) -> (r: Result<
    String,
    String,
>)
    requires
        all_bare(tables@),
    ensures
        match document_in(contents@) {
            Ok(doc) => r is Ok && r->Ok_0@ == printed(
                with_tables(doc, key@, tables_of(tables@)),
            ),
            Err(e) => r is Err && r->Err_0@ == e,
        },
{
    match read_document(contents) {
        Ok(parsed) => {
            let mut doc = parsed;
            insert_tables(&mut doc, key, tables);
            Ok(print_document(&doc))
        },
        Err(e) => Err(e),
    }
}

/// Sets a key of a table to a text.
pub(crate) fn set_text(table: &mut toml_edit::Table, key: &str, value: &str)
    ensures
        fields_of(*final(table)) == with_key(
            fields_of(*old(table)),
            key@,
            TomlTree::Text(value@),
        ),
        bare(*old(table)) ==> bare(*final(table)),
{
    set_value(table, key, &TomlValue::Text(value.to_owned()));
}

/// Sets a key of a table to a number.
pub(crate) fn set_integer(table: &mut toml_edit::Table, key: &str, value: i64)
    ensures
        fields_of(*final(table)) == with_key(
            fields_of(*old(table)),
            key@,
            TomlTree::Integer(value as int),
        ),
        bare(*old(table)) ==> bare(*final(table)),
{
    set_value(table, key, &TomlValue::Integer(value));
}

/// Sets a key of a table to a text, where there is one.
pub(crate) fn set_optional_text(table: &mut toml_edit::Table, key: &str, value: &Option<String>)
    ensures
        fields_of(*final(table)) == with_optional_key(
            fields_of(*old(table)),
            key@,
            match *value {
                Some(s) => Some(TomlTree::Text(s@)),
                None => None,
            },
        ),
        bare(*old(table)) ==> bare(*final(table)),
{
    if let Some(s) = value {
        set_text(table, key, s.as_str());
    }
}

/// The value under a key.
pub open spec fn value_in(fields: Seq<(Seq<char>, TomlTree)>, key: Seq<char>) -> Option<TomlTree> {
    let k = key_at(fields, key);
    if 0 <= k < fields.len() {
        Some(fields[k].1)
    } else {
        None
    }
}

/// Setting a key gives it its value, and leaves every other key as it was.
pub proof fn law_set_key_is_read(
    fields: Seq<(Seq<char>, TomlTree)>,
    key: Seq<char>,
    value: TomlTree,
    other: Seq<char>,
)
    ensures
        value_in(with_key(fields, key, value), key) == Some(value),
        other != key ==> value_in(with_key(fields, key, value), other) == value_in(fields, other),
{
    lemma_key_at(fields, key);
    lemma_key_at(fields, other);
    let k = key_at(fields, key);
    let o = key_at(fields, other);
    let all = with_key(fields, key, value);
    assert forall|i: int| 0 <= i < k implies (#[trigger] all[i]).0 != key by {
        assert(all[i] == fields[i]);
    }
    lemma_key_at_is(all, key, k);
    if other != key {
        assert forall|i: int| 0 <= i < o implies (#[trigger] all[i]).0 != other by {
            if i != k && i < fields.len() {
                assert(all[i] == fields[i]);
            }
        }
        if o < fields.len() {
            assert(all[o] == fields[o]);
            lemma_key_at_is(all, other, o);
        } else {
            lemma_key_at(all, other);
            let m = key_at(all, other);
            if m < all.len() {
                if m < fields.len() && m != k {
                    assert(all[m] == fields[m]);
                }
            }
        }
    }
}

} // verus!
